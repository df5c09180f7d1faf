//! Database pages, page groups and their hashes.
use vstd::prelude::*;

use crate::hash;
use crate::hash::{hash_group_for, hash_page_for, HashAlgorithm, PageHash, GROUP_SIZE};

verus! {

/// The largest page count whose groups all have a last page number that fits
/// into 32 bits.
pub const MAX_PAGE_COUNT: u32 = 0xFFFF_FFC0;

/// The largest number of groups whose page numbers all fit into 32 bits.
pub const MAX_GROUP_COUNT: u32 = 0x03FF_FFFF;

/// The number of the first page of a group.
pub open spec fn group_first(g: int) -> int {
    g * GROUP_SIZE + 1
}

/// The number of the last page of a group in a database of `count` pages.
pub open spec fn group_last(g: int, count: int) -> int {
    if (g + 1) * GROUP_SIZE <= count {
        (g + 1) * GROUP_SIZE
    } else {
        count
    }
}

/// The number of groups of a database of `count` pages.
pub open spec fn group_count(count: int) -> int {
    (count + GROUP_SIZE - 1) / (GROUP_SIZE as int)
}

/// The bytes of page `p` of a database held in `bytes`.
pub open spec fn page_at(bytes: Seq<u8>, size: int, p: int) -> Seq<u8> {
    bytes.subrange((p - 1) * size, p * size)
}

/// The pages of a database held in `bytes`.
pub open spec fn pages_of(bytes: Seq<u8>, size: int, count: int) -> Seq<Seq<u8>> {
    Seq::new(count as nat, |i: int| page_at(bytes, size, i + 1))
}

/// The hashes of the pages `lo..=hi`.
pub open spec fn page_hashes(
    algorithm: HashAlgorithm,
    pages: Seq<Seq<u8>>,
    lo: int,
    hi: int,
) -> Seq<Seq<u8>> {
    Seq::new(
        if lo <= hi {
            (hi - lo + 1) as nat
        } else {
            0
        },
        |i: int| hash::page_digest(algorithm, pages[lo - 1 + i]),
    )
}

/// The hash of a group.
pub open spec fn group_hash(algorithm: HashAlgorithm, pages: Seq<Seq<u8>>, g: int) -> Seq<u8> {
    hash::group_digest(
        algorithm,
        page_hashes(algorithm, pages, group_first(g), group_last(g, pages.len() as int)),
    )
}

/// The page numbers `lo..=hi`.
pub open spec fn page_numbers(lo: int, hi: int) -> Seq<u32> {
    Seq::new(
        if lo <= hi {
            (hi - lo + 1) as nat
        } else {
            0
        },
        |i: int| (lo + i) as u32,
    )
}

pub proof fn lemma_page_bounds(p: int, size: int, count: int, len: int)
    by (nonlinear_arith)
    requires
        1 <= p <= count,
        0 <= size,
        count * size <= len,
    ensures
        0 <= (p - 1) * size,
        p * size == (p - 1) * size + size,
        p * size <= len,
{
}

/// The bytes of page `p` of a database held in `bytes`.
pub fn page_slice(bytes: &[u8], size: usize, p: u32) -> (r: &[u8])
    requires
        1 <= p,
        p * size <= bytes@.len(),
    ensures
        r@ == page_at(bytes@, size as int, p as int),
{
    proof {
        lemma_page_bounds(p as int, size as int, p as int, bytes@.len() as int);
    }
    let index: usize = p as usize - 1;
    assert(index as int * size as int == (p - 1) * size as int);
    assert(bytes.len() == bytes@.len());
    let from: usize = index * size;
    vstd::slice::slice_subrange(bytes, from, from + size)
}

/// The pages of a database, read at one moment.
pub struct Snapshot {
    page_size: u32,
    page_count: u32,
    bytes: Vec<u8>,
}

impl Snapshot {
    /// The content covers every page, and every page number fits.
    pub closed spec fn wf(self) -> bool {
        &&& self.page_count <= MAX_PAGE_COUNT
        &&& self.page_count * self.page_size <= self.bytes@.len()
    }

    /// The pages in order.
    pub closed spec fn pages(self) -> Seq<Seq<u8>> {
        pages_of(self.bytes@, self.page_size as int, self.page_count as int)
    }

    pub closed spec fn size(self) -> u32 {
        self.page_size
    }

    /// A snapshot of `page_count` pages of `page_size` bytes each, held in
    /// `bytes`. There is none where the bytes are too few or the pages too many.
    pub fn new(page_size: u32, page_count: u32, bytes: Vec<u8>) -> (r: Option<Snapshot>)
        ensures
            r is Some <==> page_count <= MAX_PAGE_COUNT && page_count * page_size <= bytes@.len(),
            r matches Some(s) ==> s.wf() && s.size() == page_size && s.pages() == pages_of(
                bytes@,
                page_size as int,
                page_count as int,
            ),
    {
        assert(page_count * page_size <= 0xffff_ffff * 0xffff_ffff) by (nonlinear_arith)
            requires
                page_count <= 0xffff_ffff,
                page_size <= 0xffff_ffff,
        ;
        let needed: u64 = page_count as u64 * page_size as u64;
        if page_count > MAX_PAGE_COUNT || needed > bytes.len() as u64 {
            None
        } else {
            Some(Snapshot { page_size, page_count, bytes })
        }
    }

    /// The number of pages.
    pub fn page_count(&self) -> (r: u32)
        ensures
            r == self.pages().len(),
    {
        self.page_count
    }

    /// The size of a page in bytes.
    pub fn page_size(&self) -> (r: u32)
        ensures
            r == self.size(),
    {
        self.page_size
    }

    pub proof fn lemma_page_count(self)
        requires
            self.wf(),
        ensures
            self.pages().len() <= MAX_PAGE_COUNT,
    {
    }

    /// The bytes of page `p`.
    pub fn page(&self, p: u32) -> (r: &[u8])
        requires
            self.wf(),
            1 <= p <= self.pages().len(),
        ensures
            r@ == self.pages()[p - 1],
    {
        proof {
            lemma_page_bounds(
                p as int,
                self.page_size as int,
                self.page_count as int,
                self.bytes@.len() as int,
            );
        }
        page_slice(self.bytes.as_slice(), self.page_size as usize, p)
    }

    /// The hashes of the pages `lo..=hi`.
    pub fn hash_pages(&self, algorithm: HashAlgorithm, lo: u32, hi: u32) -> (r: Vec<PageHash>)
        requires
            self.wf(),
            1 <= lo,
            hi <= self.pages().len(),
        ensures
            hash::hash_views(r@) == page_hashes(algorithm, self.pages(), lo as int, hi as int),
    {
        let mut out: Vec<PageHash> = Vec::new();
        let ghost all = page_hashes(algorithm, self.pages(), lo as int, hi as int);
        let mut p: u32 = lo;
        while p <= hi
            invariant
                self.wf(),
                1 <= lo <= p,
                hi <= self.pages().len() <= MAX_PAGE_COUNT,
                p <= hi + 1 || p == lo,
                all == page_hashes(algorithm, self.pages(), lo as int, hi as int),
                out@.len() == p - lo,
                forall|i: int| 0 <= i < out@.len() ==> (#[trigger] out@[i])@ == all[i],
            decreases hi + 1 - p,
        {
            out.push(hash_page_for(self.page(p), algorithm));
            p = p + 1;
        }
        assert(hash::hash_views(out@) == all);
        out
    }

    /// The hash of group `g`.
    pub fn hash_group(&self, algorithm: HashAlgorithm, g: u32) -> (r: PageHash)
        requires
            self.wf(),
            g < MAX_GROUP_COUNT,
        ensures
            r@ == group_hash(algorithm, self.pages(), g as int),
    {
        let first: u32 = g * GROUP_SIZE + 1;
        let full: u32 = (g + 1) * GROUP_SIZE;
        let last: u32 = if full <= self.page_count {
            full
        } else {
            self.page_count
        };
        hash_group_for(self.hash_pages(algorithm, first, last).as_slice(), algorithm)
    }
}

/// Every page is in just one group, the groups follow each other from page 1 on, and
/// each but the last has 64 pages.
pub proof fn law_groups_divide_the_pages(p: int, g: int, count: int)
    requires
        1 <= p <= count,
        0 <= g,
    ensures
        group_first(g) <= p <= group_last(g, count) <==> g == (p - 1) / 64,
        0 <= (p - 1) / 64 < group_count(count),
        group_first(0) == 1,
        group_first(g + 1) == group_first(g) + 64,
        g < group_count(count) - 1 ==> group_last(g, count) == group_first(g) + 63,
        group_last(group_count(count) - 1, count) == count,
{
}

/// The page with index `i` holds the bytes of its place in the file.
pub proof fn law_pages_are_the_bytes_in_order(bytes: Seq<u8>, size: int, count: int, i: int, k: int)
    requires
        0 <= i < count,
        0 <= k < size,
        count * size <= bytes.len(),
    ensures
        pages_of(bytes, size, count).len() == count,
        pages_of(bytes, size, count)[i].len() == size,
        pages_of(bytes, size, count)[i][k] == bytes[i * size + k],
{
    lemma_page_bounds(i + 1, size, count, bytes.len() as int);
}

/// A run of pages has one number and one hash for each page from the first to the
/// last.
pub proof fn law_runs_have_each_page_once(
    algorithm: HashAlgorithm,
    pages: Seq<Seq<u8>>,
    lo: int,
    hi: int,
    p: int,
)
    requires
        1 <= lo <= p <= hi <= pages.len(),
        hi <= u32::MAX,
    ensures
        page_numbers(lo, hi).len() == hi - lo + 1,
        page_numbers(lo, hi)[p - lo] == p,
        page_hashes(algorithm, pages, lo, hi).len() == hi - lo + 1,
        page_hashes(algorithm, pages, lo, hi)[p - lo] == hash::page_digest(
            algorithm,
            pages[p - 1],
        ),
        page_numbers(hi + 1, hi).len() == 0,
{
}

} // verus!
