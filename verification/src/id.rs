//! Short identifiers for pastes: a 64-bit number written as the shortest
//! big-endian byte string and then as URL-safe base64 without padding.

use vstd::arithmetic::div_mod::{lemma_div_denominator, lemma_fundamental_div_mod};
use vstd::array::array_as_slice;
use vstd::prelude::*;
use vstd::slice::slice_subrange;
use vstd::string::StrSliceExecFns;

verus! {

/// Why a text is not an identifier.
#[derive(Debug, Clone, Copy, PartialEq, Eq, Structural)]
pub enum IdError {
    /// The text is not URL-safe base64 without padding.
    Malformed,
    /// The text decodes to this many bytes, which the identifier cannot have.
    WrongLength(usize),
}

/// 256 to the power `n`.
pub open spec fn pow256(n: nat) -> nat
    decreases n,
{
    if n == 0 {
        1
    } else {
        256 * pow256((n - 1) as nat)
    }
}

/// The number that a big-endian byte string denotes.
pub open spec fn be_value(bytes: Seq<u8>) -> nat
    decreases bytes.len(),
{
    if bytes.len() == 0 {
        0
    } else {
        be_value(bytes.drop_last()) * 256 + bytes.last() as nat
    }
}

/// The eight big-endian bytes of `n`.
pub open spec fn be_bytes(n: u64) -> Seq<u8> {
    Seq::new(8, |i: int| (n as nat / pow256((7 - i) as nat) % 256) as u8)
}

/// `bytes` without its leading zero bytes, but never empty: a string of
/// zeros, and the empty string, become the single byte zero.
pub open spec fn trimmed(bytes: Seq<u8>) -> Seq<u8>
    decreases bytes.len(),
{
    if bytes.len() == 0 {
        seq![0u8]
    } else if bytes[0] != 0 {
        bytes
    } else {
        trimmed(bytes.skip(1))
    }
}

/// The shortest big-endian byte string, of at least one byte, that denotes `n`.
pub open spec fn minimal_bytes(n: u64) -> Seq<u8> {
    trimmed(be_bytes(n))
}

proof fn lemma_pow256_step(n: nat)
    ensures
        pow256(n + 1) == pow256(n) * 256,
        pow256(n) > 0,
    decreases n,
{
    if n > 0 {
        lemma_pow256_step((n - 1) as nat);
    }
}

proof fn lemma_pow256_of_8()
    ensures
        pow256(8) == 0x1_0000_0000_0000_0000,
{
    reveal_with_fuel(pow256, 9);
}

/// A byte string denotes a number below 256 to the power of its length.
pub proof fn lemma_be_value_bound(bytes: Seq<u8>)
    ensures
        be_value(bytes) < pow256(bytes.len()),
    decreases bytes.len(),
{
    if bytes.len() > 0 {
        lemma_be_value_bound(bytes.drop_last());
        lemma_pow256_step((bytes.len() - 1) as nat);
    }
}

/// A leading zero byte does not change the number denoted.
pub proof fn lemma_be_value_leading_zero(bytes: Seq<u8>)
    requires
        bytes.len() > 0,
        bytes[0] == 0,
    ensures
        be_value(bytes.skip(1)) == be_value(bytes),
    decreases bytes.len(),
{
    let rest = bytes.skip(1);
    if bytes.len() > 1 {
        assert(rest.drop_last() =~= bytes.drop_last().skip(1));
        assert(rest.last() == bytes.last());
        lemma_be_value_leading_zero(bytes.drop_last());
        assert(be_value(rest) == be_value(rest.drop_last()) * 256 + rest.last() as nat);
    } else {
        assert(be_value(rest) == 0);
        assert(be_value(bytes.drop_last()) == 0);
    }
}

/// Trimming keeps the number denoted, yields at least one byte and no more
/// than there were (one for the empty string), and leaves a leading zero
/// only where the result is the single byte zero.
pub proof fn lemma_trimmed(bytes: Seq<u8>)
    ensures
        be_value(trimmed(bytes)) == be_value(bytes),
        1 <= trimmed(bytes).len(),
        trimmed(bytes).len() <= bytes.len() || trimmed(bytes).len() == 1,
        trimmed(bytes)[0] != 0 || trimmed(bytes) == seq![0u8],
    decreases bytes.len(),
{
    if bytes.len() == 0 {
        lemma_be_value_of_zero();
    } else if bytes[0] == 0 {
        lemma_trimmed(bytes.skip(1));
        lemma_be_value_leading_zero(bytes);
    }
}

proof fn lemma_be_value_of_zero()
    ensures
        be_value(seq![0u8]) == 0,
{
    let zero = seq![0u8];
    assert(be_value(zero.drop_last()) == 0);
    assert(zero.last() == 0);
}

proof fn lemma_be_bytes_prefix(n: u64, m: nat)
    requires
        m <= 8,
    ensures
        be_value(be_bytes(n).take(m as int)) == n as nat / pow256((8 - m) as nat),
    decreases m,
{
    let bytes = be_bytes(n);
    let prefix = bytes.take(m as int);
    if m == 0 {
        lemma_pow256_of_8();
        assert(be_value(prefix) == 0);
        assert(n as nat / 0x1_0000_0000_0000_0000nat == 0);
    } else {
        lemma_be_bytes_prefix(n, (m - 1) as nat);
        assert(prefix.drop_last() =~= bytes.take(m - 1));
        let low = pow256((8 - m) as nat);
        lemma_pow256_step((8 - m) as nat);
        assert(pow256((8 - (m - 1)) as nat) == low * 256);
        lemma_div_denominator(n as int, low as int, 256);
        let q = n as int / low as int;
        assert(be_value(prefix.drop_last()) == q / 256);
        lemma_fundamental_div_mod(q, 256);
        assert(prefix.last() == bytes[m - 1]);
        assert(prefix.last() as int == q % 256);
        assert(be_value(prefix) == be_value(prefix.drop_last()) * 256 + prefix.last() as nat);
    }
}

/// The eight big-endian bytes of `n` denote `n`.
pub proof fn lemma_be_bytes_denote(n: u64)
    ensures
        be_value(be_bytes(n)) == n,
{
    let m: nat = 8;
    lemma_be_bytes_prefix(n, m);
    assert(be_bytes(n).take(m as int) =~= be_bytes(n));
    assert(pow256((8 - m) as nat) == 1);
    assert(be_value(be_bytes(n)) == n as nat / 1);
}

/// The minimal bytes of `n` denote `n`, are between one and eight bytes, and
/// start with a zero only for `n == 0`, whose minimal bytes are the single
/// byte zero.
pub proof fn lemma_minimal_bytes(n: u64)
    ensures
        be_value(minimal_bytes(n)) == n,
        1 <= minimal_bytes(n).len() <= 8,
        minimal_bytes(n)[0] != 0 || minimal_bytes(n) == seq![0u8],
        n == 0 <==> minimal_bytes(n) == seq![0u8],
{
    lemma_trimmed(be_bytes(n));
    lemma_be_bytes_denote(n);
    if minimal_bytes(n) == seq![0u8] {
        lemma_be_value_of_zero();
    } else {
        let m = minimal_bytes(n);
        lemma_be_value_positive(m);
    }
}

/// A byte string denotes at least its first byte times 256 to the power of
/// the number of bytes that follow.
pub proof fn lemma_be_value_lower_bound(bytes: Seq<u8>)
    requires
        bytes.len() > 0,
    ensures
        be_value(bytes) >= bytes[0] as nat * pow256((bytes.len() - 1) as nat),
    decreases bytes.len(),
{
    if bytes.len() > 1 {
        let shorter = bytes.drop_last();
        lemma_be_value_lower_bound(shorter);
        lemma_pow256_step((bytes.len() - 2) as nat);
        let first = bytes[0] as nat;
        let low = pow256((bytes.len() - 2) as nat);
        assert(shorter[0] == bytes[0]);
        assert(first * (low * 256) == (first * low) * 256) by (nonlinear_arith);
    } else {
        assert(be_value(bytes.drop_last()) == 0);
        assert(pow256(0) == 1);
        assert(bytes.last() == bytes[0]);
    }
}

/// No byte string that denotes `n` is shorter than the minimal bytes of
/// `n`, but the empty one for zero.
pub proof fn lemma_minimal_bytes_are_shortest(n: u64, bytes: Seq<u8>)
    requires
        be_value(bytes) == n,
        bytes.len() >= 1,
    ensures
        minimal_bytes(n).len() <= bytes.len(),
{
    let minimal = minimal_bytes(n);
    lemma_minimal_bytes(n);
    if minimal.len() > bytes.len() {
        lemma_be_value_bound(bytes);
        lemma_be_value_lower_bound(minimal);
        lemma_pow256_monotone(bytes.len(), (minimal.len() - 1) as nat);
        let high = pow256((minimal.len() - 1) as nat);
        let first = minimal[0] as nat;
        assert(first >= 1);
        assert(first * high >= high) by (nonlinear_arith)
            requires
                first >= 1,
        ;
    }
}

proof fn lemma_be_value_positive(bytes: Seq<u8>)
    requires
        bytes.len() > 0,
        bytes[0] != 0,
    ensures
        be_value(bytes) > 0,
    decreases bytes.len(),
{
    if bytes.len() > 1 {
        lemma_be_value_positive(bytes.drop_last());
    } else {
        assert(bytes.drop_last().len() == 0);
    }
}

/// Combines the bytes of a big-endian number of at most eight bytes.
pub fn combine_bits(buf: &[u8]) -> (res: u64)
    requires
        buf@.len() <= 8,
    ensures
        res as nat == be_value(buf@),
{
    let mut res: u64 = 0;
    let mut i: usize = 0;
    while i < buf.len()
        invariant
            i <= buf@.len() <= 8,
            res as nat == be_value(buf@.take(i as int)),
        decreases buf@.len() - i,
    {
        proof {
            assert(buf@.take(i + 1).drop_last() =~= buf@.take(i as int));
            lemma_be_value_bound(buf@.take(i as int));
            lemma_be_value_bound(buf@.take(i + 1));
            lemma_pow256_monotone((i + 1) as nat, 8);
            lemma_pow256_of_8();
        }
        res = res * 256 + buf[i] as u64;
        i = i + 1;
    }
    proof {
        assert(buf@.take(i as int) =~= buf@);
    }
    res
}

proof fn lemma_pow256_monotone(a: nat, b: nat)
    requires
        a <= b,
    ensures
        pow256(a) <= pow256(b),
    decreases b,
{
    if a < b {
        lemma_pow256_monotone(a, (b - 1) as nat);
        lemma_pow256_step((b - 1) as nat);
    }
}

/// Splits a number into its eight big-endian bytes.
pub fn split_into_bits(n: u64) -> (buf: [u8; 8])
    ensures
        buf@ == be_bytes(n),
{
    let mut buf = [0u8; 8];
    let mut rest = n;
    let mut k: usize = 0;
    assert(pow256(0) == 1);
    while k < 8
        invariant
            k <= 8,
            rest as nat == n as nat / pow256(k as nat),
            forall|j: int| 8 - k <= j < 8 ==> buf@[j] == be_bytes(n)[j],
        decreases 8 - k,
    {
        proof {
            lemma_pow256_step(k as nat);
            lemma_div_denominator(n as int, pow256(k as nat) as int, 256);
        }
        buf[7 - k] = (rest % 256) as u8;
        rest = rest / 256;
        k = k + 1;
    }
    assert(buf@ =~= be_bytes(n));
    buf
}

/// The part of `b` from its first non-zero byte on, or the single byte zero
/// where `b` has no non-zero byte.
pub fn trim(b: &[u8]) -> (r: &[u8])
    ensures
        r@ == trimmed(b@),
{
    let mut index: usize = 0;
    assert(b@.skip(0) =~= b@);
    while index < b.len()
        invariant
            index <= b@.len(),
            trimmed(b@) == trimmed(b@.skip(index as int)),
        decreases b@.len() - index,
    {
        if b[index] != 0 {
            let r = slice_subrange(b, index, b.len());
            assert(r@ =~= b@.skip(index as int));
            return r;
        }
        proof {
            assert(b@.skip(index as int).skip(1) =~= b@.skip(index + 1));
        }
        index = index + 1;
    }
    assert(b@.skip(index as int).len() == 0);
    let zero: &[u8] = &[0u8];
    assert(zero@ =~= seq![0u8]);
    zero
}

/// The text that `base64::encode_config` returns for `bytes` under
/// `URL_SAFE_NO_PAD`.
pub uninterp spec fn url_safe_no_pad_text(bytes: Seq<u8>) -> Seq<char>;

/// The bytes that `base64::decode_config` returns for `text` under
/// `URL_SAFE_NO_PAD`, and `None` where it returns an error.
pub uninterp spec fn url_safe_no_pad_bytes(text: Seq<char>) -> Option<Seq<u8>>;

#[verifier::external_type_specification]
#[verifier::external_body]
pub struct ExBase64DecodeError(base64::DecodeError);

/// Whether a text is short enough to be handed to a decoder. The decoders
/// size their buffers from the length of the text in bytes, at most four for
/// each character, and give up where that computation overflows.
pub open spec fn decodable_len(text: Seq<char>) -> bool {
    text.len() <= usize::MAX / 32
}

/// The number of characters of unpadded base64 for `n` bytes.
pub open spec fn encoded_len(n: nat) -> nat {
    (4 * n + 2) / 3
}

/// `base64::encode_config` with `URL_SAFE_NO_PAD`. Trusted: the result is
/// the crate's encoding of `bytes`, it has four characters for every three
/// bytes and two or three for a rest of one or two, and the crate's decoder
/// turns it back into `bytes`. The input is kept short enough for the
/// crate's size computation not to overflow.
#[verifier::external_body]
fn base64_encode(bytes: &[u8]) -> (text: String)
    requires
        bytes@.len() <= usize::MAX / 4,
    ensures
        text@ == url_safe_no_pad_text(bytes@),
        text@.len() == encoded_len(bytes@.len()),
        url_safe_no_pad_bytes(text@) == Some(bytes@),
{
    base64::encode_config(bytes, base64::URL_SAFE_NO_PAD)
}

/// `base64::decode_config` with `URL_SAFE_NO_PAD`. Trusted: it returns the
/// crate's decoding of `text`, and an error exactly where there is none.
#[verifier::external_body]
fn base64_decode(text: &str) -> (r: Result<Vec<u8>, base64::DecodeError>)
    requires
        decodable_len(text@),
    ensures
        match r {
            Ok(bytes) => url_safe_no_pad_bytes(text@) == Some(bytes@),
            Err(_) => url_safe_no_pad_bytes(text@) is None,
        },
{
    base64::decode_config(text, base64::URL_SAFE_NO_PAD)
}

/// The identifier that a text stands for: the number that its decoded bytes
/// denote, where it decodes to at most eight bytes.
pub open spec fn decoded_id(text: Seq<char>) -> Result<u64, IdError> {
    if !decodable_len(text) {
        Err(IdError::Malformed)
    } else {
        match url_safe_no_pad_bytes(text) {
            None => Err(IdError::Malformed),
            Some(bytes) => if bytes.len() > 8 {
                Err(IdError::WrongLength(bytes.len() as usize))
            } else {
                Ok(be_value(bytes) as u64)
            },
        }
    }
}

/// A text that decodes to the minimal bytes of `n` stands for `n`.
pub proof fn lemma_decoded_id_of_minimal_bytes(n: u64, text: Seq<char>)
    requires
        decodable_len(text),
        url_safe_no_pad_bytes(text) == Some(minimal_bytes(n)),
    ensures
        decoded_id(text) == Ok::<u64, IdError>(n),
{
    lemma_minimal_bytes(n);
}

/// Encodes an identifier as a string as short as possible: the base64 text
/// of its minimal bytes. Decoding that text gives the identifier back.
pub fn encode_id(id: u64) -> (text: String)
    ensures
        text@ == url_safe_no_pad_text(minimal_bytes(id)),
        decoded_id(text@) == Ok::<u64, IdError>(id),
{
    let bytes = split_into_bits(id);
    let short = trim(array_as_slice(&bytes));
    proof {
        lemma_minimal_bytes(id);
    }
    let text = base64_encode(short);
    proof {
        lemma_decoded_id_of_minimal_bytes(id, text@);
    }
    text
}

/// Turns a string made by `encode_id` back into the identifier. A text that
/// is no base64 is `Malformed`; one that decodes to more than eight bytes has
/// the `WrongLength`.
pub fn decode_id(id: &str) -> (r: Result<u64, IdError>)
    ensures
        r == decoded_id(id@),
{
    if id.unicode_len() > usize::MAX / 32 {
        return Err(IdError::Malformed);
    }
    match base64_decode(id) {
        Err(_) => Err(IdError::Malformed),
        Ok(bytes) => {
            if bytes.len() > 8 {
                Err(IdError::WrongLength(bytes.len()))
            } else {
                Ok(combine_bits(bytes.as_slice()))
            }
        },
    }
}

} // verus!
