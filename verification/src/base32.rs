//! Unpadded base32: five bits to a character, most significant bit first.

use vstd::prelude::*;

verus! {

/// The value of the bit at position `i` of a byte, counted from the most
/// significant one.
pub open spec fn weight(i: int) -> u8 {
    if i == 0 {
        128
    } else if i == 1 {
        64
    } else if i == 2 {
        32
    } else if i == 3 {
        16
    } else if i == 4 {
        8
    } else if i == 5 {
        4
    } else if i == 6 {
        2
    } else {
        1
    }
}

/// Bit `k` of a byte string, zero behind its end.
pub open spec fn bit(bytes: Seq<u8>, k: int) -> int {
    if 0 <= k < 8 * bytes.len() {
        ((bytes[k / 8] / weight(k % 8)) % 2) as int
    } else {
        0
    }
}

/// The number that the five bits from `5 * i` on make up.
pub open spec fn digit(bytes: Seq<u8>, i: int) -> int {
    16 * bit(bytes, 5 * i) + 8 * bit(bytes, 5 * i + 1) + 4 * bit(bytes, 5 * i + 2) + 2 * bit(
        bytes,
        5 * i + 3,
    ) + bit(bytes, 5 * i + 4)
}

/// The character for a digit: the capital letters, then `2` to `7`.
pub open spec fn symbol(digit: int) -> char {
    if digit < 26 {
        (65 + digit) as char
    } else {
        (24 + digit) as char
    }
}

/// The base32 text of a byte string.
pub open spec fn base32(bytes: Seq<u8>) -> Seq<char> {
    Seq::new(((8 * bytes.len() + 4) / 5) as nat, |i: int| symbol(digit(bytes, i)))
}

/// A byte is the sum of its bits.
proof fn lemma_byte_from_bits(b: u8)
    ensures
        b == 128 * ((b / 128) % 2) + 64 * ((b / 64) % 2) + 32 * ((b / 32) % 2) + 16 * ((b / 16)
            % 2) + 8 * ((b / 8) % 2) + 4 * ((b / 4) % 2) + 2 * ((b / 2) % 2) + ((b / 1) % 2),
{
    assert(b == 128 * ((b / 128) % 2) + 64 * ((b / 64) % 2) + 32 * ((b / 32) % 2) + 16 * ((b / 16)
        % 2) + 8 * ((b / 8) % 2) + 4 * ((b / 4) % 2) + 2 * ((b / 2) % 2) + ((b / 1) % 2))
        by (bit_vector);
}

/// Where the bits of a byte stand in a byte string.
proof fn lemma_bit_of_byte(bytes: Seq<u8>, n: int, j: int)
    requires
        0 <= n < bytes.len(),
        0 <= j < 8,
    ensures
        bit(bytes, 8 * n + j) == (bytes[n] / weight(j)) % 2,
{
    assert((8 * n + j) / 8 == n);
    assert((8 * n + j) % 8 == j);
}

/// Bytes with the same bits are equal.
proof fn lemma_bits_determine_byte(a: Seq<u8>, b: Seq<u8>, n: int)
    requires
        0 <= n < a.len(),
        n < b.len(),
        forall|k: int| 8 * n <= k < 8 * n + 8 ==> bit(a, k) == bit(b, k),
    ensures
        a[n] == b[n],
{
    assert forall|j: int| 0 <= j < 8 implies (a[n] / #[trigger] weight(j)) % 2 == (b[n] / weight(
        j,
    )) % 2 by {
        lemma_bit_of_byte(a, n, j);
        lemma_bit_of_byte(b, n, j);
        assert(bit(a, 8 * n + j) == bit(b, 8 * n + j));
    }
    assert(weight(0) == 128 && weight(1) == 64 && weight(2) == 32 && weight(3) == 16);
    assert(weight(4) == 8 && weight(5) == 4 && weight(6) == 2 && weight(7) == 1);
    lemma_byte_from_bits(a[n]);
    lemma_byte_from_bits(b[n]);
}

/// A bit is zero or one.
proof fn lemma_bit_range(bytes: Seq<u8>, k: int)
    ensures
        0 <= bit(bytes, k) <= 1,
{
}

/// Digits with the same symbol consist of the same bits.
proof fn lemma_symbol_determines_bits(a: Seq<u8>, b: Seq<u8>, i: int)
    requires
        symbol(digit(a, i)) == symbol(digit(b, i)),
    ensures
        bit(a, 5 * i) == bit(b, 5 * i),
        bit(a, 5 * i + 1) == bit(b, 5 * i + 1),
        bit(a, 5 * i + 2) == bit(b, 5 * i + 2),
        bit(a, 5 * i + 3) == bit(b, 5 * i + 3),
        bit(a, 5 * i + 4) == bit(b, 5 * i + 4),
{
    lemma_bit_range(a, 5 * i);
    lemma_bit_range(a, 5 * i + 1);
    lemma_bit_range(a, 5 * i + 2);
    lemma_bit_range(a, 5 * i + 3);
    lemma_bit_range(a, 5 * i + 4);
    lemma_bit_range(b, 5 * i);
    lemma_bit_range(b, 5 * i + 1);
    lemma_bit_range(b, 5 * i + 2);
    lemma_bit_range(b, 5 * i + 3);
    lemma_bit_range(b, 5 * i + 4);
    assert(digit(a, i) == digit(b, i));
}

/// Different byte strings have different base32 texts.
pub proof fn lemma_base32_injective(a: Seq<u8>, b: Seq<u8>)
    requires
        base32(a) == base32(b),
    ensures
        a == b,
{
    let n = base32(a).len();
    assert(5 * n <= 8 * a.len() + 4 < 5 * n + 5);
    assert(n == base32(b).len());
    assert(5 * n <= 8 * b.len() + 4 < 5 * n + 5);
    assert forall|k: int| 0 <= k < 8 * a.len() implies bit(a, k) == bit(b, k) by {
        let i = k / 5;
        assert(0 <= i < base32(a).len());
        assert(base32(a)[i] == symbol(digit(a, i)));
        assert(base32(b)[i] == symbol(digit(b, i)));
        lemma_symbol_determines_bits(a, b, i);
        assert(k == 5 * i || k == 5 * i + 1 || k == 5 * i + 2 || k == 5 * i + 3 || k == 5 * i + 4);
    }
    assert forall|n: int| 0 <= n < a.len() implies a[n] == b[n] by {
        lemma_bits_determine_byte(a, b, n);
    }
    assert(a =~= b);
}

/// Every character of a base32 text is a capital letter or a decimal digit.
pub proof fn lemma_base32_alphabet(bytes: Seq<u8>, i: int)
    requires
        0 <= i < base32(bytes).len(),
    ensures
        'A' <= base32(bytes)[i] <= 'Z' || '2' <= base32(bytes)[i] <= '7',
{
    lemma_bit_range(bytes, 5 * i);
    lemma_bit_range(bytes, 5 * i + 1);
    lemma_bit_range(bytes, 5 * i + 2);
    lemma_bit_range(bytes, 5 * i + 3);
    lemma_bit_range(bytes, 5 * i + 4);
    assert(0 <= digit(bytes, i) < 32);
}

/// Encodes bytes with `data_encoding::BASE32_NOPAD`.
///
/// Trusted: `Encoding::encode` with the unpadded base32 specification gives
/// the text that [`base32`] describes. It panics on inputs longer than
/// `usize::MAX / 512`, which are left out.
#[verifier::external_body]
pub(crate) fn encode_base32(bytes: &[u8]) -> (text: String)
    requires
        bytes@.len() <= usize::MAX / 512,
    ensures
        text@ == base32(bytes@),
{
    data_encoding::BASE32_NOPAD.encode(bytes)
}

/// Decodes a text with `data_encoding::BASE32_NOPAD`.
///
/// Trusted: `Encoding::decode` succeeds on the texts of byte strings and gives
/// the byte string back. It fails on every other text: it checks the length,
/// the characters, and that the bits behind the last byte are zero. It panics
/// on inputs longer than `usize::MAX / 8` bytes, which are left out.
#[verifier::external_body]
pub(crate) fn decode_base32(text: &str) -> (decoded: Option<Vec<u8>>)
    requires
        vstd::utf8::encode_utf8(text@).len() <= usize::MAX / 8,
    ensures
        match decoded {
            Some(bytes) => base32(bytes@) == text@,
            None => forall|bytes: Seq<u8>| #[trigger] base32(bytes) != text@,
        },
{
    data_encoding::BASE32_NOPAD.decode(text.as_bytes()).ok()
}

} // verus!
