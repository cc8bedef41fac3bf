//! Content hashing with BLAKE3, and the samples read for the quick sparse
//! hash of a large file.

use vstd::prelude::*;

verus! {

/// The incremental BLAKE3 hash state of the `blake3` crate.
#[verifier::external_type_specification]
#[verifier::external_body]
pub struct ExBlake3Hasher(blake3::Hasher);

/// The BLAKE3 digest of a byte sequence.
pub uninterp spec fn blake3_digest(data: Seq<u8>) -> Seq<u8>;

/// The bytes fed so far to a BLAKE3 hash state.
pub uninterp spec fn hasher_input(hasher: blake3::Hasher) -> Seq<u8>;

/// Trusted: `blake3::Hasher::new` starts a state that has been fed nothing.
#[verifier::external_body]
fn hasher_new() -> (hasher: blake3::Hasher)
    ensures
        hasher_input(hasher) == Seq::<u8>::empty(),
{
    blake3::Hasher::new()
}

/// Trusted: `blake3::Hasher::update` appends `data` to the bytes fed so far
/// (the state comes from `hasher_new`, so the call cannot panic).
#[verifier::external_body]
fn hasher_update(hasher: &mut blake3::Hasher, data: &[u8])
    ensures
        hasher_input(*final(hasher)) == hasher_input(*old(hasher)) + data@,
{
    hasher.update(data);
}

/// Trusted: `blake3::Hasher::finalize` gives the digest of everything fed,
/// the same as `blake3::hash` of those bytes all at once, as the crate
/// documents.
#[verifier::external_body]
fn hasher_finalize(hasher: &blake3::Hasher) -> (digest: crate::types::Hash)
    ensures
        digest@ == blake3_digest(hasher_input(*hasher)),
{
    *hasher.finalize().as_bytes()
}

/// A BLAKE3 hash computed over input fed piece by piece.
pub struct ContentHasher {
    hasher: blake3::Hasher,
}

impl ContentHasher {
    /// The bytes fed so far.
    pub closed spec fn input(&self) -> Seq<u8> {
        hasher_input(self.hasher)
    }

    /// A hasher that has been fed nothing.
    pub fn new() -> (h: Self)
        ensures
            h.input() == Seq::<u8>::empty(),
    {
        ContentHasher { hasher: hasher_new() }
    }

    /// Feeds `data`.
    pub fn update(&mut self, data: &[u8])
        ensures
            final(self).input() == old(self).input() + data@,
    {
        hasher_update(&mut self.hasher, data);
    }

    /// The digest of everything fed so far.
    pub fn finalize(&self) -> (digest: crate::types::Hash)
        ensures
            digest@ == blake3_digest(self.input()),
    {
        hasher_finalize(&self.hasher)
    }
}

/// The BLAKE3 digest of `data`.
pub fn hash_bytes(data: &[u8]) -> (digest: crate::types::Hash)
    ensures
        digest@ == blake3_digest(data@),
{
    let mut h = ContentHasher::new();
    h.update(data);
    assert(Seq::<u8>::empty() + data@ =~= data@);
    h.finalize()
}

/// Bytes in one sample of a sparse hash.
pub const SAMPLE_LEN: u64 = 4096;

/// Where the sparse hash of a file of `size` bytes reads its samples: for a
/// file larger than three samples, one sample at the start, one centred on
/// the middle and one at the end; a smaller file is hashed whole (`None`).
pub open spec fn sample_offsets_spec(size: u64) -> Option<Seq<u64>> {
    if size <= 3 * SAMPLE_LEN {
        None
    } else {
        Some(seq![0u64, (size / 2 - SAMPLE_LEN / 2) as u64, (size - SAMPLE_LEN) as u64])
    }
}

/// The offsets of the samples of a sparse hash.
pub fn sample_offsets(size: u64) -> (offsets: Option<Vec<u64>>)
    ensures
        match (offsets, sample_offsets_spec(size)) {
            (Some(o), Some(s)) => o@ == s,
            (None, None) => true,
            _ => false,
        },
{
    if size <= 3 * SAMPLE_LEN {
        None
    } else {
        let mut offsets: Vec<u64> = Vec::new();
        offsets.push(0);
        offsets.push(size / 2 - SAMPLE_LEN / 2);
        offsets.push(size - SAMPLE_LEN);
        assert(offsets@ =~= seq![0u64, (size / 2 - SAMPLE_LEN / 2) as u64, (size - SAMPLE_LEN) as u64]);
        Some(offsets)
    }
}

/// Samples stay inside the file and do not overlap: each one ends where the
/// file or the next sample begins, or before.
pub proof fn law_samples_within_file(size: u64)
    ensures
        match sample_offsets_spec(size) {
            Some(s) => s.len() == 3 && s[0] + SAMPLE_LEN <= s[1] && s[1] + SAMPLE_LEN <= s[2]
                && s[2] + SAMPLE_LEN == size,
            None => size <= 3 * SAMPLE_LEN,
        },
{
}

/// Whether two blocks of bytes are equal.
pub fn same_bytes(a: &[u8], b: &[u8]) -> (same: bool)
    ensures
        same == (a@ == b@),
{
    if a.len() != b.len() {
        return false;
    }
    let mut i: usize = 0;
    while i < a.len()
        invariant
            i <= a@.len(),
            a@.len() == b@.len(),
            forall|j: int| 0 <= j < i ==> a@[j] == b@[j],
        decreases a@.len() - i,
    {
        if a[i] != b[i] {
            return false;
        }
        i += 1;
    }
    assert(a@ =~= b@);
    true
}

} // verus!
