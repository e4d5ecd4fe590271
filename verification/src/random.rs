//! Deterministic pseudo-random byte streams, and their assembly into torus
//! words. Every mask of a seeded ciphertext is re-derived from its seed
//! through the same stream, which is what makes the seeded form expandable.

use vstd::prelude::*;
use concrete_csprng::generators::RandomGenerator;

verus! {

/// The pseudo-random byte stream that the cryptographically secure generator
/// draws from a seed: a function of the seed and the requested length alone.
pub uninterp spec fn csprng_bytes(seed: u128, n: nat) -> Seq<u8>;

/// Relies on concrete_csprng's `SoftwareRandomGenerator`: the byte stream is
/// a pure function of the seed, and a fresh generator can serve any length
/// requested here, so taking `n` bytes yields exactly `n` bytes.
#[verifier::external_body]
pub(crate) fn random_bytes_of_seed(seed: u128, n: usize) -> (r: Vec<u8>)
    ensures
        r@ == csprng_bytes(seed, n as nat),
        r@.len() == n,
{
    let generator = <concrete_csprng::generators::SoftwareRandomGenerator as RandomGenerator>::new(
        concrete_csprng::seeders::Seed(seed),
    );
    generator.take(n).collect()
}

/// The torus word encoded little-endian by eight bytes.
pub open spec fn spec_word_of(bytes: Seq<u8>) -> u64
    recommends
        bytes.len() == 8,
{
    (bytes[0] + bytes[1] * 0x100 + bytes[2] * 0x1_0000 + bytes[3] * 0x100_0000 + bytes[4]
        * 0x1_0000_0000 + bytes[5] * 0x100_0000_0000 + bytes[6] * 0x1_0000_0000_0000 + bytes[7]
        * 0x100_0000_0000_0000) as u64
}

/// The words encoded by a byte string, eight bytes to a word, little-endian.
pub open spec fn spec_words_of(bytes: Seq<u8>) -> Seq<u64> {
    Seq::new(bytes.len() / 8, |i: int| spec_word_of(bytes.subrange(8 * i, 8 * i + 8)))
}

/// Assembles a byte string into torus words, eight bytes to a word.
pub fn words_of_bytes(bytes: &Vec<u8>) -> (r: Vec<u64>)
    requires
        bytes@.len() % 8 == 0,
    ensures
        r@ == spec_words_of(bytes@),
        r@.len() == bytes@.len() / 8,
{
    let n_words: usize = bytes.len() / 8;
    let mut r: Vec<u64> = Vec::new();
    let mut i: usize = 0;
    while i < n_words
        invariant
            i <= n_words,
            n_words == bytes@.len() / 8,
            bytes@.len() % 8 == 0,
            bytes@.len() <= usize::MAX,
            r@.len() == i,
            forall|k: int| 0 <= k < i ==> r@[k] == spec_words_of(bytes@)[k],
        decreases n_words - i,
    {
        proof {
            vstd::arithmetic::div_mod::lemma_fundamental_div_mod(bytes@.len() as int, 8);
            assert(8 * (i as int) + 8 <= bytes@.len());
        }
        let b0 = bytes[8 * i] as u64;
        let b1 = bytes[8 * i + 1] as u64;
        let b2 = bytes[8 * i + 2] as u64;
        let b3 = bytes[8 * i + 3] as u64;
        let b4 = bytes[8 * i + 4] as u64;
        let b5 = bytes[8 * i + 5] as u64;
        let b6 = bytes[8 * i + 6] as u64;
        let b7 = bytes[8 * i + 7] as u64;
        let word: u64 = b0 + b1 * 0x100 + b2 * 0x1_0000 + b3 * 0x100_0000 + b4 * 0x1_0000_0000 + b5
            * 0x100_0000_0000 + b6 * 0x1_0000_0000_0000 + b7 * 0x100_0000_0000_0000;
        proof {
            let s = bytes@.subrange(8 * (i as int), 8 * (i as int) + 8);
            assert(s[0] == bytes@[8 * (i as int)]);
            assert(s[1] == bytes@[8 * (i as int) + 1]);
            assert(s[2] == bytes@[8 * (i as int) + 2]);
            assert(s[3] == bytes@[8 * (i as int) + 3]);
            assert(s[4] == bytes@[8 * (i as int) + 4]);
            assert(s[5] == bytes@[8 * (i as int) + 5]);
            assert(s[6] == bytes@[8 * (i as int) + 6]);
            assert(s[7] == bytes@[8 * (i as int) + 7]);
            assert(word == spec_word_of(s));
        }
        r.push(word);
        i = i + 1;
    }
    assert(r@ =~= spec_words_of(bytes@));
    r
}

/// The words drawn from a seed: the byte stream of the seed, assembled.
pub open spec fn spec_random_words(seed: u128, n_words: nat) -> Seq<u64> {
    spec_words_of(csprng_bytes(seed, 8 * n_words))
}

/// Draws `n_words` pseudo-random torus words from a seed.
pub fn random_words_of_seed(seed: u128, n_words: usize) -> (r: Vec<u64>)
    requires
        8 * n_words <= usize::MAX,
    ensures
        r@ == spec_random_words(seed, n_words as nat),
        r@.len() == n_words,
{
    let bytes = random_bytes_of_seed(seed, 8 * n_words);
    words_of_bytes(&bytes)
}

} // verus!
