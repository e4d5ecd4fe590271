//! The byte format of the Fourier-domain LWE bootstrap key: a format tag,
//! the five parameters, and the transform-domain coefficients as word bit
//! patterns. Deserialization checks the tag and the recorded length and
//! fails with a descriptive error instead of returning a malformed entity.

use vstd::prelude::*;
use crate::parameters::{
    DecompositionBaseLog, DecompositionLevelCount, GlweSize, LweDimension, PolynomialSize,
};
use crate::random::spec_word_of;

verus! {

/// The format tag that opens every serialized Fourier bootstrap key.
pub const FOURIER_BOOTSTRAP_KEY_TAG: u8 = 0xB5;

/// A collection of GLWE encryptions of the bits of an LWE secret key,
/// pre-transformed into the frequency domain; the transform-domain
/// coefficients are carried as word bit patterns.
pub struct FftFourierLweBootstrapKey64 {
    pub input_lwe_dimension: LweDimension,
    pub glwe_size: GlweSize,
    pub polynomial_size: PolynomialSize,
    pub decomposition_base_log: DecompositionBaseLog,
    pub decomposition_level_count: DecompositionLevelCount,
    pub fourier_data: Vec<u64>,
}

/// The error surface of bootstrap-key deserialization: the byte view opens
/// with the wrong entity tag, ends before the header does, or records a
/// coefficient count that disagrees with the bytes that follow.
#[derive(Clone, Copy, PartialEq, Eq, Structural, Debug)]
pub enum EntityDeserializationError {
    WrongEntityType,
    TruncatedHeader,
    LengthMismatch,
}

/// The eight little-endian bytes of one word.
pub open spec fn spec_word_bytes(w: u64) -> Seq<u8> {
    seq![
        (w & 0xFF) as u8,
        ((w >> 8) & 0xFF) as u8,
        ((w >> 16) & 0xFF) as u8,
        ((w >> 24) & 0xFF) as u8,
        ((w >> 32) & 0xFF) as u8,
        ((w >> 40) & 0xFF) as u8,
        ((w >> 48) & 0xFF) as u8,
        ((w >> 56) & 0xFF) as u8,
    ]
}

/// The bytes of a word sequence, word after word.
pub open spec fn spec_words_bytes(ws: Seq<u64>) -> Seq<u8>
    decreases ws.len(),
{
    if ws.len() == 0 {
        Seq::empty()
    } else {
        spec_words_bytes(ws.drop_last()) + spec_word_bytes(ws.last())
    }
}

/// The serialized form of a bootstrap key: the tag, the five parameters,
/// the coefficient count, and the coefficients.
pub open spec fn spec_serialized_bootstrap_key(k: FftFourierLweBootstrapKey64) -> Seq<u8> {
    seq![FOURIER_BOOTSTRAP_KEY_TAG] + spec_word_bytes(k.input_lwe_dimension.0 as u64)
        + spec_word_bytes(k.glwe_size.0 as u64) + spec_word_bytes(k.polynomial_size.0 as u64)
        + spec_word_bytes(k.decomposition_base_log.0 as u64) + spec_word_bytes(
        k.decomposition_level_count.0 as u64,
    ) + spec_word_bytes(k.fourier_data@.len() as u64) + spec_words_bytes(k.fourier_data@)
}

/// Appends the eight little-endian bytes of one word.
fn push_word(out: &mut Vec<u8>, w: u64)
    ensures
        final(out)@ == old(out)@ + spec_word_bytes(w),
{
    proof {
        assert(forall|x: u64, s: u64| s < 64 ==> ((x >> s) & 0xFF) <= 0xFF) by (bit_vector);
    }
    out.push((w & 0xFF) as u8);
    out.push(((w >> 8) & 0xFF) as u8);
    out.push(((w >> 16) & 0xFF) as u8);
    out.push(((w >> 24) & 0xFF) as u8);
    out.push(((w >> 32) & 0xFF) as u8);
    out.push(((w >> 40) & 0xFF) as u8);
    out.push(((w >> 48) & 0xFF) as u8);
    out.push(((w >> 56) & 0xFF) as u8);
    proof {
        assert(out@ =~= old(out)@ + spec_word_bytes(w));
    }
}

/// Serializes a bootstrap key into its byte format.
pub fn serialize_fft_fourier_lwe_bootstrap_key(key: &FftFourierLweBootstrapKey64) -> (r: Vec<u8>)
    ensures
        r@ == spec_serialized_bootstrap_key(*key),
{
    let mut out: Vec<u8> = Vec::new();
    out.push(FOURIER_BOOTSTRAP_KEY_TAG);
    push_word(&mut out, key.input_lwe_dimension.0 as u64);
    push_word(&mut out, key.glwe_size.0 as u64);
    push_word(&mut out, key.polynomial_size.0 as u64);
    push_word(&mut out, key.decomposition_base_log.0 as u64);
    push_word(&mut out, key.decomposition_level_count.0 as u64);
    push_word(&mut out, key.fourier_data.len() as u64);
    let ghost header = out@;
    let mut i: usize = 0;
    let n = key.fourier_data.len();
    while i < n
        invariant
            i <= n,
            n == key.fourier_data@.len(),
            out@ == header + spec_words_bytes(key.fourier_data@.take(i as int)),
        decreases n - i,
    {
        push_word(&mut out, key.fourier_data[i]);
        proof {
            assert(key.fourier_data@.take(i + 1).drop_last() =~= key.fourier_data@.take(i as int));
            assert(out@ =~= header + spec_words_bytes(key.fourier_data@.take(i + 1)));
        }
        i = i + 1;
    }
    proof {
        assert(key.fourier_data@.take(n as int) =~= key.fourier_data@);
        assert(out@ =~= spec_serialized_bootstrap_key(*key));
    }
    out
}

/// Reads the word at byte offset `off`.
fn read_word(bytes: &Vec<u8>, off: usize) -> (r: u64)
    requires
        off + 8 <= bytes@.len(),
        bytes@.len() <= usize::MAX,
    ensures
        r == spec_word_of(bytes@.subrange(off as int, off as int + 8)),
{
    let b0 = bytes[off] as u64;
    let b1 = bytes[off + 1] as u64;
    let b2 = bytes[off + 2] as u64;
    let b3 = bytes[off + 3] as u64;
    let b4 = bytes[off + 4] as u64;
    let b5 = bytes[off + 5] as u64;
    let b6 = bytes[off + 6] as u64;
    let b7 = bytes[off + 7] as u64;
    let w = b0 + b1 * 0x100 + b2 * 0x1_0000 + b3 * 0x100_0000 + b4 * 0x1_0000_0000 + b5
        * 0x100_0000_0000 + b6 * 0x1_0000_0000_0000 + b7 * 0x100_0000_0000_0000;
    proof {
        let s = bytes@.subrange(off as int, off as int + 8);
        assert(s[0] == bytes@[off as int] && s[1] == bytes@[off as int + 1] && s[2] == bytes@[off
            as int + 2] && s[3] == bytes@[off as int + 3] && s[4] == bytes@[off as int + 4] && s[5]
            == bytes@[off as int + 5] && s[6] == bytes@[off as int + 6] && s[7] == bytes@[off
            as int + 7]);
    }
    w
}

/// The length of the serialized header: the tag and six words.
pub const BOOTSTRAP_KEY_HEADER_LEN: usize = 49;

/// Whether a byte view is an acceptable serialization: right tag, whole
/// header, a parameter block that fits the machine's words, and exactly the
/// recorded number of coefficient bytes after the header.
pub open spec fn spec_acceptable_bootstrap_key_bytes(bytes: Seq<u8>) -> bool {
    &&& bytes.len() >= 49
    &&& bytes[0] == FOURIER_BOOTSTRAP_KEY_TAG
    &&& spec_word_of(bytes.subrange(1, 9)) <= usize::MAX
    &&& spec_word_of(bytes.subrange(9, 17)) <= usize::MAX
    &&& spec_word_of(bytes.subrange(17, 25)) <= usize::MAX
    &&& spec_word_of(bytes.subrange(25, 33)) <= usize::MAX
    &&& spec_word_of(bytes.subrange(33, 41)) <= usize::MAX
    &&& 8 * spec_word_of(bytes.subrange(41, 49)) == bytes.len() - 49
}

/// Deserializes a bootstrap key from its byte format: returns the entity the
/// bytes record, or says which way the bytes fail the format.
pub fn deserialize_fft_fourier_lwe_bootstrap_key(bytes: &Vec<u8>) -> (r: Result<
    FftFourierLweBootstrapKey64,
    EntityDeserializationError,
>)
    ensures
        r is Ok <==> spec_acceptable_bootstrap_key_bytes(bytes@),
        r == Err::<FftFourierLweBootstrapKey64, EntityDeserializationError>(
            EntityDeserializationError::WrongEntityType,
        ) <==> (bytes@.len() == 0 || bytes@[0] != FOURIER_BOOTSTRAP_KEY_TAG),
        r matches Ok(k) ==> {
            &&& k.input_lwe_dimension.0 == spec_word_of(bytes@.subrange(1, 9))
            &&& k.glwe_size.0 == spec_word_of(bytes@.subrange(9, 17))
            &&& k.polynomial_size.0 == spec_word_of(bytes@.subrange(17, 25))
            &&& k.decomposition_base_log.0 == spec_word_of(bytes@.subrange(25, 33))
            &&& k.decomposition_level_count.0 == spec_word_of(bytes@.subrange(33, 41))
            &&& k.fourier_data@.len() == spec_word_of(bytes@.subrange(41, 49))
            &&& forall|t: int|
                0 <= t < k.fourier_data@.len() ==> #[trigger] k.fourier_data@[t] == spec_word_of(
                    bytes@.subrange(49 + 8 * t, 49 + 8 * t + 8),
                )
        },
{
    if bytes.len() == 0 {
        return Err(EntityDeserializationError::WrongEntityType);
    }
    if bytes[0] != FOURIER_BOOTSTRAP_KEY_TAG {
        return Err(EntityDeserializationError::WrongEntityType);
    }
    if bytes.len() < BOOTSTRAP_KEY_HEADER_LEN {
        return Err(EntityDeserializationError::TruncatedHeader);
    }
    let input_lwe_dimension = read_word(bytes, 1);
    let glwe_size = read_word(bytes, 9);
    let polynomial_size = read_word(bytes, 17);
    let decomposition_base_log = read_word(bytes, 25);
    let decomposition_level_count = read_word(bytes, 33);
    let data_len = read_word(bytes, 41);
    if input_lwe_dimension > usize::MAX as u64 || glwe_size > usize::MAX as u64 || polynomial_size
        > usize::MAX as u64 || decomposition_base_log > usize::MAX as u64
        || decomposition_level_count > usize::MAX as u64 {
        return Err(EntityDeserializationError::LengthMismatch);
    }
    let remaining = bytes.len() - BOOTSTRAP_KEY_HEADER_LEN;
    if data_len > (usize::MAX as u64) / 8 || (data_len as usize) * 8 != remaining {
        return Err(EntityDeserializationError::LengthMismatch);
    }
    let n_words = data_len as usize;
    let mut fourier_data: Vec<u64> = Vec::new();
    let mut t: usize = 0;
    while t < n_words
        invariant
            t <= n_words,
            n_words * 8 == bytes@.len() - 49,
            bytes@.len() <= usize::MAX,
            fourier_data@.len() == t,
            forall|u: int|
                0 <= u < t ==> #[trigger] fourier_data@[u] == spec_word_of(
                    bytes@.subrange(49 + 8 * u, 49 + 8 * u + 8),
                ),
        decreases n_words - t,
    {
        proof {
            assert(8 * (t as int) + 8 <= 8 * (n_words as int));
        }
        let w = read_word(bytes, BOOTSTRAP_KEY_HEADER_LEN + 8 * t);
        fourier_data.push(w);
        t = t + 1;
    }
    Ok(
        FftFourierLweBootstrapKey64 {
            input_lwe_dimension: LweDimension(input_lwe_dimension as usize),
            glwe_size: GlweSize(glwe_size as usize),
            polynomial_size: PolynomialSize(polynomial_size as usize),
            decomposition_base_log: DecompositionBaseLog(decomposition_base_log as usize),
            decomposition_level_count: DecompositionLevelCount(
                decomposition_level_count as usize,
            ),
            fourier_data,
        },
    )
}

} // verus!
