//! Page and page-group hashing.
//!
//! The sync protocol hashes at two granularities: the raw bytes of one page,
//! and the concatenated page hashes of a contiguous run of [`GROUP_SIZE`]
//! pages. A group hash lets the coarse pass identify changed regions with one
//! comparison before individual pages are looked at.
use vstd::prelude::*;

verus! {

/// Number of pages per coarse hash group.
pub const GROUP_SIZE: u32 = 64;

/// A 32-byte digest.
pub type PageHash = [u8; 32];

/// Hash algorithm negotiated by protocol version.
#[derive(Debug, Clone, Copy, PartialEq, Eq, Structural)]
pub enum HashAlgorithm {
    Sha256V1,
    Blake3V2,
}

impl HashAlgorithm {
    /// The algorithm of a protocol version, where there is one.
    pub open spec fn of_version(version: u32) -> Option<HashAlgorithm> {
        if version == 1 {
            Some(HashAlgorithm::Sha256V1)
        } else if version == 2 {
            Some(HashAlgorithm::Blake3V2)
        } else {
            None
        }
    }

    /// The algorithm of a protocol version, where there is one.
    pub fn from_protocol_version(version: u32) -> (r: Option<HashAlgorithm>)
        ensures
            r == HashAlgorithm::of_version(version),
    {
        match version {
            1 => Some(HashAlgorithm::Sha256V1),
            2 => Some(HashAlgorithm::Blake3V2),
            _ => None,
        }
    }
}

/// The SHA-256 digest of `data`.
pub uninterp spec fn sha256_digest(data: Seq<u8>) -> Seq<u8>;

/// The BLAKE3 digest of `data`.
pub uninterp spec fn blake3_digest(data: Seq<u8>) -> Seq<u8>;

/// `sha2::Sha256::digest` (through `sha2::Digest`): the result is a function of
/// the bytes handed to it, named [`sha256_digest`].
#[verifier::external_body]
fn sha256(data: &[u8]) -> (r: PageHash)
    ensures
        r@ == sha256_digest(data@),
{
    <sha2::Sha256 as sha2::Digest>::digest(data).into()
}

/// `blake3::hash`: the result is a function of the bytes handed to it, named
/// [`blake3_digest`].
#[verifier::external_body]
fn blake3(data: &[u8]) -> (r: PageHash)
    ensures
        r@ == blake3_digest(data@),
{
    blake3::hash(data).into()
}

/// The digest of the bytes of a page under an algorithm.
pub open spec fn page_digest(algorithm: HashAlgorithm, data: Seq<u8>) -> Seq<u8> {
    match algorithm {
        HashAlgorithm::Sha256V1 => sha256_digest(data),
        HashAlgorithm::Blake3V2 => blake3_digest(data),
    }
}

/// The hashes of a list one after the other.
pub open spec fn joined(hashes: Seq<Seq<u8>>) -> Seq<u8>
    decreases hashes.len(),
{
    if hashes.len() == 0 {
        Seq::empty()
    } else {
        joined(hashes.drop_last()) + hashes.last()
    }
}

/// The digest of the concatenation of page hashes.
pub open spec fn group_digest(algorithm: HashAlgorithm, hashes: Seq<Seq<u8>>) -> Seq<u8> {
    page_digest(algorithm, joined(hashes))
}

/// The bytes of each hash of a list.
pub open spec fn hash_views(hashes: Seq<PageHash>) -> Seq<Seq<u8>> {
    Seq::new(hashes.len(), |i: int| hashes[i]@)
}

/// Compute a page hash using the specified algorithm.
pub fn hash_page_for(data: &[u8], algorithm: HashAlgorithm) -> (r: PageHash)
    ensures
        r@ == page_digest(algorithm, data@),
{
    match algorithm {
        HashAlgorithm::Sha256V1 => sha256(data),
        HashAlgorithm::Blake3V2 => blake3(data),
    }
}

/// Compute the hash of a single database page using the current algorithm.
pub fn hash_page(data: &[u8]) -> (r: PageHash)
    ensures
        r@ == blake3_digest(data@),
{
    hash_page_for(data, HashAlgorithm::Blake3V2)
}

/// Compute a group hash by hashing the concatenation of the given page hashes.
///
/// The order of `hashes` must match the ascending page-number order expected
/// by the protocol.
pub fn hash_group_for(hashes: &[PageHash], algorithm: HashAlgorithm) -> (r: PageHash)
    ensures
        r@ == group_digest(algorithm, hash_views(hashes@)),
{
    let mut bytes: Vec<u8> = Vec::new();
    let mut i: usize = 0;
    let ghost all = hash_views(hashes@);
    assert(all.take(0) == Seq::<Seq<u8>>::empty());
    while i < hashes.len()
        invariant
            i <= hashes@.len(),
            all == hash_views(hashes@),
            bytes@ == joined(all.take(i as int)),
        decreases hashes@.len() - i,
    {
        let hash: PageHash = hashes[i];
        let ghost before = bytes@;
        let mut k: usize = 0;
        while k < 32
            invariant
                k <= 32,
                bytes@ == before + hash@.take(k as int),
            decreases 32 - k,
        {
            bytes.push(hash[k]);
            assert(hash@.take(k + 1) == hash@.take(k as int).push(hash@[k as int]));
            k = k + 1;
        }
        assert(hash@.take(32) == hash@);
        assert(all.take(i + 1).drop_last() == all.take(i as int));
        assert(all.take(i + 1).last() == hash@);
        i = i + 1;
    }
    assert(all.take(i as int) == all);
    hash_page_for(bytes.as_slice(), algorithm)
}

/// Compute a group hash using the current algorithm.
pub fn hash_group(hashes: &[PageHash]) -> (r: PageHash)
    ensures
        r@ == blake3_digest(joined(hash_views(hashes@))),
{
    hash_group_for(hashes, HashAlgorithm::Blake3V2)
}

/// Whether two hashes hold the same bytes.
pub fn same_hash(a: &PageHash, b: &PageHash) -> (r: bool)
    ensures
        r == (a@ == b@),
{
    let mut i: usize = 0;
    while i < 32
        invariant
            i <= 32,
            forall|j: int| 0 <= j < i ==> a@[j] == b@[j],
        decreases 32 - i,
    {
        if a[i] != b[i] {
            return false;
        }
        i = i + 1;
    }
    assert(a@ == b@);
    true
}

/// The first protocol version hashes with SHA-256 and the second with BLAKE3; no
/// other has hashes.
pub proof fn law_version_tells_the_hash(version: u32, data: Seq<u8>)
    ensures
        HashAlgorithm::of_version(version) is Some <==> version == 1 || version == 2,
        HashAlgorithm::of_version(1) matches Some(a) && page_digest(a, data) == sha256_digest(data),
        HashAlgorithm::of_version(2) matches Some(a) && page_digest(a, data) == blake3_digest(data),
{
}

/// The hash of a group is that of the hashes of its pages one after the other.
pub proof fn law_group_is_hashed_in_order(
    algorithm: HashAlgorithm,
    first: Seq<Seq<u8>>,
    second: Seq<Seq<u8>>,
    one: Seq<u8>,
)
    ensures
        group_digest(algorithm, first) == page_digest(algorithm, joined(first)),
        joined(Seq::empty()) == Seq::<u8>::empty(),
        joined(seq![one]) == one,
        joined(first + second) == joined(first) + joined(second),
    decreases second.len(),
{
    reveal_with_fuel(joined, 2);
    assert(seq![one].drop_last() =~= Seq::empty());
    assert(joined(seq![one]) =~= one);
    if second.len() == 0 {
        assert(first + second =~= first);
        assert(joined(first) + joined(second) =~= joined(first));
    } else {
        assert((first + second).drop_last() =~= first + second.drop_last());
        assert((first + second).last() == second.last());
        law_group_is_hashed_in_order(algorithm, first, second.drop_last(), one);
        assert(joined(first + second) =~= joined(first) + joined(second));
    }
}

} // verus!
