//! The SHA-256 digest of a file that is read piece by piece.

use sha2::Digest;
use sha2::Sha256;
use vstd::prelude::*;

verus! {

/// A SHA-256 computation that is under way, as `sha2` holds it.
#[verifier::external_type_specification]
#[verifier::external_body]
pub struct ExSha256(sha2::Sha256);

/// The bytes that a computation has taken in.
pub uninterp spec fn taken_in(hasher: Sha256) -> Seq<u8>;

/// The SHA-256 digest of a byte string.
pub uninterp spec fn sha256(data: Seq<u8>) -> Seq<u8>;

/// Begins a computation with `sha2::Sha256::new`.
///
/// Trusted: nothing has been taken in.
#[verifier::external_body]
fn begin() -> (hasher: Sha256)
    ensures
        taken_in(hasher) == Seq::<u8>::empty(),
{
    Sha256::new()
}

/// Continues a computation with `sha2::Sha256::update`.
///
/// Trusted: the data is taken in behind what was taken in before.
#[verifier::external_body]
fn update(hasher: &mut Sha256, data: &[u8])
    ensures
        taken_in(*final(hasher)) == taken_in(*old(hasher)) + data@,
{
    hasher.update(data)
}

/// Ends a computation with `sha2::Sha256::finalize`.
///
/// Trusted: the result depends on the bytes that were taken in alone, which
/// `sha256` names, and has 32 bytes. The length of the message in bits is
/// counted in 64 bits, and longer messages are left out.
#[verifier::external_body]
fn finalize(hasher: Sha256) -> (digest: Vec<u8>)
    requires
        taken_in(hasher).len() < 0x2000_0000_0000_0000,
    ensures
        digest@ == sha256(taken_in(hasher)),
        digest@.len() == 32,
{
    hasher.finalize().to_vec()
}

/// The digest of a file of which some has been read.
pub struct FileDigest {
    hasher: Sha256,
}

impl View for FileDigest {
    type V = Seq<u8>;

    closed spec fn view(&self) -> Seq<u8> {
        taken_in(self.hasher)
    }
}

impl FileDigest {
    /// The digest of a file of which nothing has been read.
    pub fn new() -> (digest: FileDigest)
        ensures
            digest@ == Seq::<u8>::empty(),
    {
        FileDigest { hasher: begin() }
    }

    /// Takes in what a read gave, the first `n` bytes of `buffer`, and says
    /// whether the file is at its end.
    pub fn absorb(&mut self, buffer: &[u8], n: usize) -> (at_end: bool)
        requires
            n <= buffer@.len(),
        ensures
            at_end == (n == 0),
            final(self)@ == old(self)@ + buffer@.take(n as int),
    {
        if n == 0 {
            assert(self@ =~= self@ + buffer@.take(0));
            return true;
        }
        let (read, _) = buffer.split_at(n);
        update(&mut self.hasher, read);
        assert(read@ =~= buffer@.take(n as int));
        false
    }

    /// The SHA-256 digest of all that was read.
    pub fn finish(self) -> (digest: Vec<u8>)
        requires
            self@.len() < 0x2000_0000_0000_0000,
        ensures
            digest@ == sha256(self@),
            digest@.len() == 32,
    {
        finalize(self.hasher)
    }
}

/// What has been read after some reads.
pub open spec fn read_after(reads: Seq<Seq<u8>>) -> Seq<u8>
    decreases reads.len(),
{
    if reads.len() == 0 {
        Seq::empty()
    } else {
        read_after(reads.drop_last()) + reads.last()
    }
}

/// What has been read after some reads and then some more.
proof fn lemma_read_after_concat(first: Seq<Seq<u8>>, second: Seq<Seq<u8>>)
    ensures
        read_after(first + second) == read_after(first) + read_after(second),
    decreases second.len(),
{
    if second.len() == 0 {
        assert(first + second =~= first);
        assert(read_after(first) + read_after(second) =~= read_after(first));
    } else {
        assert((first + second).drop_last() =~= first + second.drop_last());
        lemma_read_after_concat(first, second.drop_last());
        assert(read_after(first + second) =~= read_after(first) + read_after(second));
    }
}

/// How a file falls into reads does not matter: where any of them is split into
/// two, the same bytes are taken in.
pub proof fn lemma_split_read(
    before: Seq<Seq<u8>>,
    first: Seq<u8>,
    second: Seq<u8>,
    behind: Seq<Seq<u8>>,
)
    ensures
        read_after(before.push(first + second) + behind) == read_after(
            before.push(first).push(second) + behind,
        ),
{
    let whole = before.push(first + second);
    let split = before.push(first).push(second);
    assert(whole.drop_last() =~= before);
    assert(split.drop_last() =~= before.push(first));
    assert(before.push(first).drop_last() =~= before);
    assert(read_after(before.push(first)) =~= read_after(before) + first);
    assert(read_after(whole) =~= read_after(before) + first + second);
    assert(read_after(split) =~= read_after(before) + first + second);
    lemma_read_after_concat(whole, behind);
    lemma_read_after_concat(split, behind);
}

} // verus!
