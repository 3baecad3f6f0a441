//! The byte layout of messages and tickets.
//!
//! Integers are written in base 128, least significant digit first, with the
//! top bit of a byte set while more digits follow. Fixed-size arrays are
//! written as they are. A structure is the concatenation of its fields and an
//! enum is the index of its variant followed by the variant's fields.

use vstd::arithmetic::power2::pow2;
use vstd::prelude::*;

verus! {

/// The base-128 encoding of `n`.
pub open spec fn varint(n: nat) -> Seq<u8>
    decreases n,
{
    if n < 128 {
        seq![n as u8]
    } else {
        seq![(n % 128 + 128) as u8] + varint(n / 128)
    }
}

/// Reads a base-128 integer of at most `bits` bits from the front of `s`, and
/// gives it together with the bytes behind it.
///
/// A digit that does not fit in the bits that are left, or a missing digit, is
/// an error. Leading zero digits are not.
pub open spec fn take_varint(s: Seq<u8>, bits: nat) -> Option<(nat, Seq<u8>)>
    decreases bits,
{
    if s.len() == 0 {
        None
    } else if bits <= 7 {
        if s[0] < pow2(bits) {
            Some((s[0] as nat, s.skip(1)))
        } else {
            None
        }
    } else if s[0] < 128 {
        Some((s[0] as nat, s.skip(1)))
    } else {
        match take_varint(s.skip(1), (bits - 7) as nat) {
            Some((high, rest)) => Some(((s[0] - 128 + 128 * high) as nat, rest)),
            None => None,
        }
    }
}

/// Splits `n` bytes off the front of `s`.
pub open spec fn take_bytes(s: Seq<u8>, n: nat) -> Option<(Seq<u8>, Seq<u8>)> {
    if n <= s.len() {
        Some((s.take(n as int), s.skip(n as int)))
    } else {
        None
    }
}

/// Every integer is read back as it was written, whatever follows it.
pub proof fn lemma_varint_roundtrip(n: nat, bits: nat, rest: Seq<u8>)
    requires
        n < pow2(bits),
    ensures
        take_varint(varint(n) + rest, bits) == Some((n, rest)),
    decreases bits,
{
    let s = varint(n) + rest;
    if bits <= 7 {
        vstd::arithmetic::power2::lemma2_to64();
        if bits < 7 {
            vstd::arithmetic::power2::lemma_pow2_strictly_increases(bits, 7);
        }
        assert(n < 128);
        assert(s.skip(1) =~= rest);
    } else if n < 128 {
        assert(s.skip(1) =~= rest);
    } else {
        let high = n / 128;
        vstd::arithmetic::power2::lemma2_to64();
        vstd::arithmetic::power2::lemma_pow2_adds(7, (bits - 7) as nat);
        assert(high < pow2((bits - 7) as nat)) by (nonlinear_arith)
            requires
                high == n / 128,
                n < 128 * pow2((bits - 7) as nat),
        ;
        lemma_varint_roundtrip(high, (bits - 7) as nat, rest);
        assert(s.skip(1) =~= varint(high) + rest);
        assert(n == n % 128 + 128 * high);
    }
}

/// What is left of two byte strings, one behind the other, that are cut off.
pub proof fn lemma_cut(first: Seq<u8>, second: Seq<u8>, n: int)
    requires
        0 <= n <= first.len() + second.len(),
    ensures
        n < first.len() ==> (first + second).take(n) == first.take(n),
        n >= first.len() ==> (first + second).take(n) == first + second.take(n - first.len()),
{
    if n < first.len() {
        assert((first + second).take(n) =~= first.take(n));
    } else {
        assert((first + second).take(n) =~= first + second.take(n - first.len()));
    }
}

/// An integer that is cut off is refused.
pub proof fn lemma_cut_varint(value: nat, bits: nat, n: int)
    requires
        value < pow2(bits),
        0 <= n < varint(value).len(),
    ensures
        take_varint(varint(value).take(n), bits) is None,
    decreases bits,
{
    if value >= 128 {
        let high = value / 128;
        vstd::arithmetic::power2::lemma2_to64();
        if bits <= 7 {
            if bits < 7 {
                vstd::arithmetic::power2::lemma_pow2_strictly_increases(bits, 7);
            }
        } else if n > 0 {
            vstd::arithmetic::power2::lemma_pow2_adds(7, (bits - 7) as nat);
            assert(high < pow2((bits - 7) as nat)) by (nonlinear_arith)
                requires
                    high == value / 128,
                    value < 128 * pow2((bits - 7) as nat),
            ;
            lemma_cut_varint(high, (bits - 7) as nat, n - 1);
            assert(varint(value).take(n).skip(1) =~= varint(high).take(n - 1));
        }
    }
}

/// Bytes split off the front are those that were put there.
pub proof fn lemma_take_bytes_roundtrip(bytes: Seq<u8>, rest: Seq<u8>)
    ensures
        take_bytes(bytes + rest, bytes.len()) == Some((bytes, rest)),
{
    assert((bytes + rest).take(bytes.len() as int) =~= bytes);
    assert((bytes + rest).skip(bytes.len() as int) =~= rest);
}

/// Encodes an integer with `postcard::to_allocvec`.
///
/// Trusted: the result is the base-128 encoding that postcard's wire format
/// prescribes for unsigned integers of every width above eight bits. Writing
/// to a growing vector cannot fail.
#[verifier::external_body]
pub(crate) fn encode_varint(value: u64) -> (encoded: Vec<u8>)
    ensures
        encoded@ == varint(value as nat),
{
    postcard::to_allocvec(&value).unwrap()
}

/// Reads a `u32` with `postcard::take_from_bytes`.
///
/// Trusted: postcard reads a base-128 integer of at most 32 bits, hands back
/// the bytes behind it, and fails where there is none.
#[verifier::external_body]
pub(crate) fn take_u32(bytes: &[u8]) -> (read: Option<(u32, &[u8])>)
    ensures
        match read {
            Some((value, rest)) => take_varint(bytes@, 32) == Some((value as nat, rest@)),
            None => take_varint(bytes@, 32) is None,
        },
{
    postcard::take_from_bytes::<u32>(bytes).ok()
}

/// Reads a `u64` with `postcard::take_from_bytes`.
///
/// Trusted: postcard reads a base-128 integer of at most 64 bits, hands back
/// the bytes behind it, and fails where there is none.
#[verifier::external_body]
pub(crate) fn take_u64(bytes: &[u8]) -> (read: Option<(u64, &[u8])>)
    ensures
        match read {
            Some((value, rest)) => take_varint(bytes@, 64) == Some((value as nat, rest@)),
            None => take_varint(bytes@, 64) is None,
        },
{
    postcard::take_from_bytes::<u64>(bytes).ok()
}

/// Reads the length of a sequence: an integer of at most as many bits as the
/// machine's `usize` has, and the bytes behind it.
pub(crate) fn take_usize(bytes: &[u8]) -> (read: Option<(usize, &[u8])>)
    ensures
        match read {
            Some((value, rest)) => take_varint(bytes@, usize::BITS as nat) == Some(
                (value as nat, rest@),
            ),
            None => take_varint(bytes@, usize::BITS as nat) is None,
        },
{
    if usize::BITS == 32 {
        match take_u32(bytes) {
            Some((value, rest)) => Some((value as usize, rest)),
            None => None,
        }
    } else {
        match take_u64(bytes) {
            Some((value, rest)) => Some((value as usize, rest)),
            None => None,
        }
    }
}

/// Splits a 32-byte identifier off the front of `bytes`.
pub fn take_array32(bytes: &[u8]) -> (read: Option<([u8; 32], &[u8])>)
    ensures
        match read {
            Some((array, rest)) => take_bytes(bytes@, 32) == Some((array@, rest@)),
            None => take_bytes(bytes@, 32) is None,
        },
{
    if bytes.len() < 32 {
        return None;
    }
    let mut array: [u8; 32] = [0u8; 32];
    let mut i: usize = 0;
    while i < 32
        invariant
            i <= 32,
            bytes@.len() >= 32,
            forall|j: int| 0 <= j < i ==> array@[j] == bytes@[j],
        decreases 32 - i,
    {
        array[i] = bytes[i];
        i = i + 1;
    }
    let (_, rest) = bytes.split_at(32);
    assert(array@ =~= bytes@.take(32));
    assert(rest@ =~= bytes@.skip(32));
    Some((array, rest))
}

/// Appends `bytes` to `out`.
pub fn append_bytes(out: &mut Vec<u8>, bytes: &[u8])
    ensures
        final(out)@ == old(out)@ + bytes@,
{
    let ghost before = out@;
    out.extend_from_slice(bytes);
    assert(out@ =~= before + bytes@);
}

/// Appends the base-128 encoding of `value` to `out`.
pub fn append_varint(out: &mut Vec<u8>, value: u64)
    ensures
        final(out)@ == old(out)@ + varint(value as nat),
{
    let mut encoded = encode_varint(value);
    out.append(&mut encoded);
}

/// An integer that is read fits in the bits that it was read with.
pub proof fn lemma_varint_fits(s: Seq<u8>, bits: nat)
    ensures
        take_varint(s, bits) matches Some((value, rest)) ==> {
            &&& value < pow2(bits)
            &&& rest.len() < s.len()
            &&& rest == s.skip(s.len() - rest.len())
        },
    decreases bits,
{
    vstd::arithmetic::power2::lemma2_to64();
    if s.len() > 0 && bits > 7 {
        vstd::arithmetic::power2::lemma_pow2_strictly_increases(7, bits);
        if s[0] >= 128 {
            lemma_varint_fits(s.skip(1), (bits - 7) as nat);
            if let Some((high, rest)) = take_varint(s.skip(1), (bits - 7) as nat) {
                vstd::arithmetic::power2::lemma_pow2_adds(7, (bits - 7) as nat);
                let limit = pow2((bits - 7) as nat);
                assert(s[0] - 128 + 128 * high < 128 * limit) by (nonlinear_arith)
                    requires
                        s[0] < 256,
                        high < limit,
                ;
                assert(rest =~= s.skip(s.len() - rest.len()));
            }
        }
    }
}

/// Bytes are split off exactly where there are that many, and what is split off
/// and what is left make up the whole.
pub proof fn lemma_take_bytes(s: Seq<u8>, n: nat, front: Seq<u8>, rest: Seq<u8>)
    ensures
        take_bytes(s, n) == Some((front, rest)) <==> front.len() == n && front + rest == s,
        take_bytes(s, n) is None <==> s.len() < n,
{
    if n <= s.len() {
        assert(s.take(n as int) + s.skip(n as int) =~= s);
    }
    if front.len() == n && front + rest == s {
        assert(s.take(n as int) =~= front);
        assert(s.skip(n as int) =~= rest);
    }
}

} // verus!
