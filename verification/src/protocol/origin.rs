//! Origin-side sync handler.
//!
//! The origin holds the authoritative copy of the database. Its job in the
//! protocol is to:
//!
//! 1. Receive group hashes from the replica and identify which groups differ.
//! 2. Receive per-page hashes for differing groups and identify which
//!    individual pages differ.
//! 3. Send the raw bytes of changed pages.
//! 4. Send [`Message::Done`] when finished.
use std::collections::HashSet;
use vstd::prelude::*;

use crate::error::{Result, SyncError};
use crate::hash;
use crate::hash::{
    hash_group_for, hash_page_for, same_hash, HashAlgorithm, PageHash, GROUP_SIZE,
};
use crate::protocol::messages;
use crate::protocol::messages::{Message, MessageView, PageData, PROTOCOL_VERSION};
use crate::protocol::pages;
use crate::protocol::pages::{Snapshot, MAX_GROUP_COUNT, MAX_PAGE_COUNT};
use crate::protocol::step::{Step, StepView};
use crate::text;

verus! {

broadcast use vstd::std_specs::hash::group_hash_axioms;

// ---------------------------------------------------------------------------
// Page hashes of a group
// ---------------------------------------------------------------------------

/// What is wrong with the page numbers from index `i` on, taken one by one.
pub open spec fn page_no_error(page_nos: Seq<u32>, group_idx: u32, i: int) -> Option<Seq<char>>
    decreases page_nos.len() - i,
{
    let first = pages::group_first(group_idx as int);
    let last = first + GROUP_SIZE - 1;
    if i < 0 || i >= page_nos.len() {
        None
    } else if page_nos[i] == 0 {
        Some("PageHashes includes invalid page number 0"@)
    } else if page_nos[i] < first || page_nos[i] > last {
        Some(
            "PageHashes page "@ + text::decimal(page_nos[i] as nat) + " is outside group "@
                + text::decimal(group_idx as nat) + " range ["@ + text::decimal(first as nat)
                + ", "@ + text::decimal(last as nat) + "]"@,
        )
    } else if page_nos.take(i).contains(page_nos[i]) {
        Some("PageHashes contains duplicate page number "@ + text::decimal(page_nos[i] as nat))
    } else if i > 0 && page_nos[i] <= page_nos[i - 1] {
        Some(
            "PageHashes page numbers must be strictly increasing (got "@ + text::decimal(
                page_nos[i - 1] as nat,
            ) + " then "@ + text::decimal(page_nos[i] as nat) + ")"@,
        )
    } else {
        page_no_error(page_nos, group_idx, i + 1)
    }
}

/// What keeps the page numbers from index `i` on from continuing the run of
/// the group's pages.
pub open spec fn prefix_error(page_nos: Seq<u32>, group_idx: u32, i: int) -> Option<Seq<char>>
    decreases page_nos.len() - i,
{
    let expected = pages::group_first(group_idx as int) + i;
    if i < 0 || i >= page_nos.len() {
        None
    } else if page_nos[i] != expected {
        Some(
            "PageHashes page numbers must be a contiguous prefix for group "@ + text::decimal(
                group_idx as nat,
            ) + " (expected page "@ + text::decimal(expected as nat) + ", got "@ + text::decimal(
                page_nos[i] as nat,
            ) + ")"@,
        )
    } else {
        prefix_error(page_nos, group_idx, i + 1)
    }
}

/// What is wrong with the page hashes that a replica sent for a group.
pub open spec fn page_hashes_error(
    page_nos: Seq<u32>,
    hash_count: nat,
    group_idx: u32,
) -> Option<Seq<char>> {
    if page_nos.len() != hash_count {
        Some(
            "PageHashes has mismatched lengths: page_nos="@ + text::decimal(page_nos.len())
                + ", hashes="@ + text::decimal(hash_count),
        )
    } else {
        match page_no_error(page_nos, group_idx, 0) {
            Some(e) => Some(e),
            None => prefix_error(page_nos, group_idx, 0),
        }
    }
}

/// Page numbers without an error are the first pages of the group.
pub proof fn lemma_valid_page_nos(page_nos: Seq<u32>, group_idx: u32, i: int)
    requires
        0 <= i <= page_nos.len(),
        prefix_error(page_nos, group_idx, i) is None,
    ensures
        forall|j: int|
            i <= j < page_nos.len() ==> #[trigger] page_nos[j] == pages::group_first(
                group_idx as int,
            ) + j,
    decreases page_nos.len() - i,
{
    if i < page_nos.len() {
        lemma_valid_page_nos(page_nos, group_idx, i + 1);
    }
}

/// Page numbers within the group that run from its first page are in order.
proof fn lemma_page_no_error_bounds(page_nos: Seq<u32>, group_idx: u32, i: int)
    requires
        0 <= i <= page_nos.len(),
        page_no_error(page_nos, group_idx, i) is None,
    ensures
        forall|j: int|
            i <= j < page_nos.len() ==> #[trigger] page_nos[j] <= pages::group_first(
                group_idx as int,
            ) + GROUP_SIZE - 1,
    decreases page_nos.len() - i,
{
    if i < page_nos.len() {
        lemma_page_no_error_bounds(page_nos, group_idx, i + 1);
    }
}

/// Valid page numbers are the numbers of the first pages of the group, at most
/// as many as the group has.
pub proof fn lemma_no_page_hashes_error(page_nos: Seq<u32>, hash_count: nat, group_idx: u32)
    requires
        page_hashes_error(page_nos, hash_count, group_idx) is None,
    ensures
        page_nos.len() == hash_count,
        page_nos.len() <= GROUP_SIZE,
        page_nos == pages::page_numbers(
            pages::group_first(group_idx as int),
            pages::group_first(group_idx as int) + page_nos.len() - 1,
        ),
{
    lemma_valid_page_nos(page_nos, group_idx, 0);
    lemma_page_no_error_bounds(page_nos, group_idx, 0);
    let n = page_nos.len();
    if n > 0 {
        assert(page_nos[n - 1] == pages::group_first(group_idx as int) + n - 1);
    }
    assert(page_nos =~= pages::page_numbers(
        pages::group_first(group_idx as int),
        pages::group_first(group_idx as int) + n - 1,
    ));
}

fn outside_group_text(page_no: u32, group_idx: u32, first: u32, last: u32) -> (r: String)
    ensures
        r@ == "PageHashes page "@ + text::decimal(page_no as nat) + " is outside group "@
            + text::decimal(group_idx as nat) + " range ["@ + text::decimal(first as nat) + ", "@
            + text::decimal(last as nat) + "]"@,
{
    let mut m: String = "PageHashes page ".to_owned();
    m.append(text::u64_text(page_no as u64).as_str());
    m.append(" is outside group ");
    m.append(text::u64_text(group_idx as u64).as_str());
    m.append(" range [");
    m.append(text::u64_text(first as u64).as_str());
    m.append(", ");
    m.append(text::u64_text(last as u64).as_str());
    m.append("]");
    m
}

/// Check the page hashes that a replica sent for a group.
pub fn validate_page_hashes_for_group(
    page_nos: &[u32],
    page_hashes: &[PageHash],
    group_idx: u32,
) -> (r: Result<()>)
    requires
        group_idx < MAX_GROUP_COUNT,
    ensures
        match page_hashes_error(page_nos@, page_hashes@.len(), group_idx) {
            None => r is Ok,
            Some(e) => r is Err && r->Err_0.is_protocol(e),
        },
{
    if page_nos.len() != page_hashes.len() {
        let mut m: String = "PageHashes has mismatched lengths: page_nos=".to_owned();
        m.append(text::u64_text(page_nos.len() as u64).as_str());
        m.append(", hashes=");
        m.append(text::u64_text(page_hashes.len() as u64).as_str());
        return Err(SyncError::Protocol(m));
    }
    let first_page: u32 = group_idx * GROUP_SIZE + 1;
    let group_last_page: u32 = (group_idx + 1) * GROUP_SIZE;
    let mut seen: HashSet<u32> = HashSet::new();
    let mut i: usize = 0;
    assert(page_nos@.take(0).to_set() == Set::<u32>::empty());
    while i < page_nos.len()
        invariant
            i <= page_nos@.len(),
            page_nos@.len() == page_hashes@.len(),
            group_idx < MAX_GROUP_COUNT,
            first_page == pages::group_first(group_idx as int),
            group_last_page == first_page + GROUP_SIZE - 1,
            seen@ == page_nos@.take(i as int).to_set(),
            page_no_error(page_nos@, group_idx, 0) == page_no_error(page_nos@, group_idx, i as int),
        decreases page_nos@.len() - i,
    {
        let page_no: u32 = page_nos[i];
        if page_no == 0 {
            return Err(SyncError::protocol("PageHashes includes invalid page number 0"));
        }
        if page_no < first_page || page_no > group_last_page {
            return Err(
                SyncError::Protocol(
                    outside_group_text(page_no, group_idx, first_page, group_last_page),
                ),
            );
        }
        let fresh: bool = seen.insert(page_no);
        assert(fresh == !page_nos@.take(i as int).contains(page_no));
        if !fresh {
            let mut m: String = "PageHashes contains duplicate page number ".to_owned();
            m.append(text::u64_text(page_no as u64).as_str());
            return Err(SyncError::Protocol(m));
        }
        if i > 0 && page_no <= page_nos[i - 1] {
            let mut m: String =
                "PageHashes page numbers must be strictly increasing (got ".to_owned();
            m.append(text::u64_text(page_nos[i - 1] as u64).as_str());
            m.append(" then ");
            m.append(text::u64_text(page_no as u64).as_str());
            m.append(")");
            return Err(SyncError::Protocol(m));
        }
        proof {
            assert(page_nos@.take(i + 1) == page_nos@.take(i as int).push(page_no));
            lemma_push_to_set(page_nos@.take(i as int), page_no);
        }
        i = i + 1;
    }
    proof {
        lemma_page_no_error_bounds(page_nos@, group_idx, i as int);
    }
    let mut k: usize = 0;
    while k < page_nos.len()
        invariant
            k <= page_nos@.len(),
            k <= GROUP_SIZE,
            page_nos@.len() == page_hashes@.len(),
            group_idx < MAX_GROUP_COUNT,
            first_page == pages::group_first(group_idx as int),
            page_no_error(page_nos@, group_idx, 0) is None,
            prefix_error(page_nos@, group_idx, 0) == prefix_error(
                page_nos@,
                group_idx,
                k as int,
            ),
            forall|j: int| 0 <= j < k ==> #[trigger] page_nos@[j] == first_page + j,
        decreases page_nos@.len() - k,
    {
        proof {
            lemma_page_no_error_bounds(page_nos@, group_idx, 0);
            assert(page_nos@[k as int] <= first_page + GROUP_SIZE - 1);
        }
        let expected_page: u32 = first_page + k as u32;
        if page_nos[k] != expected_page {
            let mut m: String =
                "PageHashes page numbers must be a contiguous prefix for group ".to_owned();
            m.append(text::u64_text(group_idx as u64).as_str());
            m.append(" (expected page ");
            m.append(text::u64_text(expected_page as u64).as_str());
            m.append(", got ");
            m.append(text::u64_text(page_nos[k] as u64).as_str());
            m.append(")");
            return Err(SyncError::Protocol(m));
        }
        k = k + 1;
    }
    Ok(())
}

proof fn lemma_push_to_set(s: Seq<u32>, x: u32)
    ensures
        s.push(x).to_set() == s.to_set().insert(x),
{
    assert forall|y: u32| s.push(x).contains(y) == (s.contains(y) || y == x) by {
        if s.contains(y) {
            let j = choose|j: int| 0 <= j < s.len() && s[j] == y;
            assert(s.push(x)[j] == y);
        }
        if y == x {
            assert(s.push(x)[s.len() as int] == y);
        }
    }
    assert forall|y: u32| s.push(x).to_set().contains(y) == s.to_set().insert(x).contains(y) by {
        assert(s.push(x).contains(y) == (s.contains(y) || y == x));
    }
    assert(s.push(x).to_set() =~= s.to_set().insert(x));
}

// ---------------------------------------------------------------------------
// Acknowledgements
// ---------------------------------------------------------------------------

/// The items of `s`, each once, in the order of their first occurrence.
pub open spec fn distinct(s: Seq<u32>) -> Seq<u32>
    decreases s.len(),
{
    if s.len() == 0 {
        s
    } else if s.drop_last().contains(s.last()) {
        distinct(s.drop_last())
    } else {
        distinct(s.drop_last()).push(s.last())
    }
}

/// What is wrong with an acknowledgement of the pages that were sent.
pub open spec fn ack_error(expected: Seq<u32>, ack: Seq<u32>) -> Option<Seq<char>> {
    if !ack.no_duplicates() {
        Some("PagesAck contains duplicate page numbers"@)
    } else if expected.to_set() != ack.to_set() {
        Some(
            "PagesAck does not match sent pages: expected {"@ + text::comma_list(
                text::number_items(distinct(expected)),
            ) + "}, got {"@ + text::comma_list(text::number_items(distinct(ack))) + "}"@,
        )
    } else {
        None
    }
}

/// The distinct numbers of a list, in order, and the set of them.
fn collect(v: &[u32]) -> (r: (Vec<u32>, HashSet<u32>))
    ensures
        r.0@ == distinct(v@),
        r.1@ == v@.to_set(),
        r.0@.len() == v@.len() <==> v@.no_duplicates(),
{
    let mut order: Vec<u32> = Vec::new();
    let mut seen: HashSet<u32> = HashSet::new();
    let mut i: usize = 0;
    assert(v@.take(0).to_set() == Set::<u32>::empty());
    assert(distinct(v@.take(0)) == Seq::<u32>::empty());
    while i < v.len()
        invariant
            i <= v@.len(),
            order@ == distinct(v@.take(i as int)),
            seen@ == v@.take(i as int).to_set(),
            order@.len() <= i,
            order@.len() == i <==> v@.take(i as int).no_duplicates(),
        decreases v@.len() - i,
    {
        let x: u32 = v[i];
        let ghost head = v@.take(i as int);
        let ghost longer = v@.take(i + 1);
        proof {
            assert(longer == head.push(x));
            assert(longer.drop_last() == head);
            lemma_push_to_set(head, x);
        }
        let fresh: bool = seen.insert(x);
        assert(fresh == !head.contains(x));
        if fresh {
            order.push(x);
        }
        proof {
            if longer.no_duplicates() {
                assert forall|a: int, b: int| 0 <= a < head.len() && 0 <= b < head.len() && a
                    != b implies head[a] != head[b] by {
                    assert(longer[a] == head[a] && longer[b] == head[b]);
                }
                assert(head.no_duplicates());
                if head.contains(x) {
                    let j = choose|j: int| 0 <= j < head.len() && head[j] == x;
                    assert(longer[j] == x && longer[i as int] == x);
                }
            }
        }
        i = i + 1;
    }
    assert(v@.take(i as int) == v@);
    (order, seen)
}

/// Whether two sets of page numbers, given with their items in order, differ.
fn sets_differ(
    a: &Vec<u32>,
    a_set: &HashSet<u32>,
    b: &Vec<u32>,
    b_set: &HashSet<u32>,
) -> (r: bool)
    requires
        a@.to_set() == a_set@,
        b@.to_set() == b_set@,
    ensures
        r == (a_set@ != b_set@),
{
    let mut i: usize = 0;
    while i < a.len()
        invariant
            i <= a@.len(),
            a@.to_set() == a_set@,
            forall|j: int| 0 <= j < i ==> b_set@.contains(#[trigger] a@[j]),
        decreases a@.len() - i,
    {
        if !b_set.contains(&a[i]) {
            assert(a_set@.contains(a@[i as int]));
            return true;
        }
        i = i + 1;
    }
    let mut k: usize = 0;
    while k < b.len()
        invariant
            k <= b@.len(),
            b@.to_set() == b_set@,
            forall|j: int| 0 <= j < k ==> a_set@.contains(#[trigger] b@[j]),
        decreases b@.len() - k,
    {
        if !a_set.contains(&b[k]) {
            assert(b_set@.contains(b@[k as int]));
            return true;
        }
        k = k + 1;
    }
    assert forall|x: u32| a_set@.contains(x) == b_set@.contains(x) by {
        if a_set@.contains(x) {
            assert(a@.contains(x));
        }
        if b_set@.contains(x) {
            assert(b@.contains(x));
        }
    }
    assert(a_set@ =~= b_set@);
    false
}

proof fn lemma_distinct_to_set(s: Seq<u32>)
    ensures
        distinct(s).to_set() == s.to_set(),
    decreases s.len(),
{
    if s.len() > 0 {
        let rest = s.drop_last();
        lemma_distinct_to_set(rest);
        assert(s == rest.push(s.last()));
        lemma_push_to_set(rest, s.last());
        if rest.contains(s.last()) {
            assert(rest.to_set().contains(s.last()));
            assert(rest.to_set().insert(s.last()) =~= rest.to_set());
        } else {
            lemma_push_to_set(distinct(rest), s.last());
        }
    }
}

/// Check an acknowledgement of the pages that were sent.
pub fn validate_pages_ack(expected_page_nos: &[u32], ack_page_nos: &[u32]) -> (r: Result<()>)
    ensures
        match ack_error(expected_page_nos@, ack_page_nos@) {
            None => r is Ok,
            Some(e) => r is Err && r->Err_0.is_protocol(e),
        },
{
    let (expected, expected_set): (Vec<u32>, HashSet<u32>) = collect(expected_page_nos);
    let (actual, actual_set): (Vec<u32>, HashSet<u32>) = collect(ack_page_nos);
    if actual.len() != ack_page_nos.len() {
        return Err(SyncError::protocol("PagesAck contains duplicate page numbers"));
    }
    proof {
        lemma_distinct_to_set(expected_page_nos@);
        lemma_distinct_to_set(ack_page_nos@);
    }
    if sets_differ(&expected, &expected_set, &actual, &actual_set) {
        let mut m: String = "PagesAck does not match sent pages: expected {".to_owned();
        m.append(text::number_list(&expected).as_str());
        m.append("}, got {");
        m.append(text::number_list(&actual).as_str());
        m.append("}");
        return Err(SyncError::Protocol(m));
    }
    Ok(())
}

// ---------------------------------------------------------------------------
// Differences
// ---------------------------------------------------------------------------

/// Whether a group has to be inspected page by page: the origin has none of its
/// pages, or its hash is not the replica's.
pub open spec fn group_differs(
    algorithm: HashAlgorithm,
    db: Seq<Seq<u8>>,
    g: int,
    replica_hash: Seq<u8>,
) -> bool {
    pages::group_first(g) > db.len() || pages::group_hash(algorithm, db, g) != replica_hash
}

/// The groups among the first `n` that differ, in order.
pub open spec fn differing_groups(
    algorithm: HashAlgorithm,
    db: Seq<Seq<u8>>,
    hashes: Seq<Seq<u8>>,
    n: int,
) -> Seq<u32>
    decreases n,
{
    if n <= 0 {
        Seq::empty()
    } else {
        let rest = differing_groups(algorithm, db, hashes, n - 1);
        if group_differs(algorithm, db, n - 1, hashes[n - 1]) {
            rest.push((n - 1) as u32)
        } else {
            rest
        }
    }
}

/// The groups that need fine-grained inspection: those that differ, then those
/// that only the origin has.
pub open spec fn groups_needing_fine(
    algorithm: HashAlgorithm,
    db: Seq<Seq<u8>>,
    hashes: Seq<Seq<u8>>,
) -> Seq<u32> {
    differing_groups(algorithm, db, hashes, hashes.len() as int) + pages::page_numbers(
        hashes.len() as int,
        pages::group_count(db.len() as int) - 1,
    )
}

/// The pages among the first `n` listed ones that the origin has with another
/// hash than the replica's.
pub open spec fn changed_pages(
    algorithm: HashAlgorithm,
    db: Seq<Seq<u8>>,
    page_nos: Seq<u32>,
    hashes: Seq<Seq<u8>>,
    n: int,
) -> Seq<(u32, Seq<u8>)>
    decreases n,
{
    if n <= 0 {
        Seq::empty()
    } else {
        let rest = changed_pages(algorithm, db, page_nos, hashes, n - 1);
        let page = db[page_nos[n - 1] - 1];
        if page_nos[n - 1] <= db.len() && hash::page_digest(algorithm, page) != hashes[n - 1] {
            rest.push((page_nos[n - 1], page))
        } else {
            rest
        }
    }
}

/// The pages `lo..=hi` with their numbers.
pub open spec fn page_run(db: Seq<Seq<u8>>, lo: int, hi: int) -> Seq<(u32, Seq<u8>)> {
    Seq::new(
        if lo <= hi {
            (hi - lo + 1) as nat
        } else {
            0
        },
        |i: int| ((lo + i) as u32, db[lo - 1 + i]),
    )
}

/// The pages of a group to send to a replica that listed `page_nos` with their
/// hashes: those that changed, then those that only the origin has. For a page
/// that only the replica has there is nothing to send.
pub open spec fn pages_to_send(
    algorithm: HashAlgorithm,
    db: Seq<Seq<u8>>,
    g: int,
    page_nos: Seq<u32>,
    hashes: Seq<Seq<u8>>,
) -> Seq<(u32, Seq<u8>)> {
    changed_pages(algorithm, db, page_nos, hashes, page_nos.len() as int) + page_run(
        db,
        pages::group_first(g) + page_nos.len(),
        pages::group_last(g, db.len() as int),
    )
}

/// The numbers of the pages of a list.
pub open spec fn numbers_of(list: Seq<(u32, Seq<u8>)>) -> Seq<u32> {
    Seq::new(list.len(), |i: int| list[i].0)
}

/// The hash of the pages `first_page..=last_page` as one group.
pub fn origin_group_hash_for_pages(
    snapshot: &Snapshot,
    first_page: u32,
    last_page: u32,
    algorithm: HashAlgorithm,
) -> (r: PageHash)
    requires
        snapshot.wf(),
        1 <= first_page,
        last_page <= snapshot.pages().len(),
    ensures
        r@ == hash::group_digest(
            algorithm,
            pages::page_hashes(
                algorithm,
                snapshot.pages(),
                first_page as int,
                last_page as int,
            ),
        ),
{
    let hashes: Vec<PageHash> = snapshot.hash_pages(algorithm, first_page, last_page);
    hash_group_for(hashes.as_slice(), algorithm)
}

/// The page to send where its hash is not the replica's.
pub fn changed_page_for(
    page_no: u32,
    replica_hash: &PageHash,
    snapshot: &Snapshot,
    algorithm: HashAlgorithm,
) -> (r: Option<PageData>)
    requires
        snapshot.wf(),
        1 <= page_no <= snapshot.pages().len(),
    ensures
        r is Some <==> hash::page_digest(algorithm, snapshot.pages()[page_no - 1])
            != replica_hash@,
        r matches Some(p) ==> p@ == (page_no, snapshot.pages()[page_no - 1]),
{
    let data: &[u8] = snapshot.page(page_no);
    let origin_hash: PageHash = hash_page_for(data, algorithm);
    if same_hash(&origin_hash, replica_hash) {
        None
    } else {
        Some(PageData { page_no, data: vstd::slice::slice_to_vec(data) })
    }
}

/// The groups that need fine-grained inspection.
pub fn find_groups_needing_fine(
    snapshot: &Snapshot,
    algorithm: HashAlgorithm,
    replica_group_hashes: &Vec<PageHash>,
) -> (r: Vec<u32>)
    requires
        snapshot.wf(),
        replica_group_hashes@.len() <= MAX_GROUP_COUNT,
    ensures
        r@ == groups_needing_fine(
            algorithm,
            snapshot.pages(),
            hash::hash_views(replica_group_hashes@),
        ),
        forall|i: int| 0 <= i < r@.len() ==> #[trigger] r@[i] < MAX_GROUP_COUNT,
{
    proof {
        snapshot.lemma_page_count();
    }
    let page_count: u32 = snapshot.page_count();
    let ghost db = snapshot.pages();
    let ghost hashes = hash::hash_views(replica_group_hashes@);
    let mut need_fine: Vec<u32> = Vec::new();
    let n: usize = replica_group_hashes.len();
    let mut i: usize = 0;
    while i < n
        invariant
            i <= n == replica_group_hashes@.len(),
            n <= MAX_GROUP_COUNT,
            snapshot.wf(),
            db == snapshot.pages(),
            page_count == db.len(),
            page_count <= MAX_PAGE_COUNT,
            hashes == hash::hash_views(replica_group_hashes@),
            need_fine@ == differing_groups(algorithm, db, hashes, i as int),
            forall|j: int| 0 <= j < need_fine@.len() ==> #[trigger] need_fine@[j] < MAX_GROUP_COUNT,
        decreases n - i,
    {
        let group_idx: u32 = i as u32;
        let first_page: u32 = group_idx * GROUP_SIZE + 1;
        let full: u32 = (group_idx + 1) * GROUP_SIZE;
        let last_page: u32 = if full <= page_count {
            full
        } else {
            page_count
        };
        let differs: bool = if first_page > page_count {
            true
        } else {
            let h: PageHash = origin_group_hash_for_pages(
                snapshot,
                first_page,
                last_page,
                algorithm,
            );
            !same_hash(&h, &replica_group_hashes[i])
        };
        assert(differs == group_differs(algorithm, db, i as int, hashes[i as int]));
        if differs {
            need_fine.push(group_idx);
        }
        i = i + 1;
    }
    let max_origin_group: u32 = (page_count + (GROUP_SIZE - 1)) / GROUP_SIZE;
    let ghost head = need_fine@;
    let mut g: u32 = n as u32;
    while g < max_origin_group
        invariant
            n <= g,
            n <= MAX_GROUP_COUNT,
            max_origin_group <= MAX_GROUP_COUNT,
            g <= max_origin_group || g == n,
            need_fine@ == head + pages::page_numbers(n as int, g - 1),
            forall|j: int| 0 <= j < need_fine@.len() ==> #[trigger] need_fine@[j] < MAX_GROUP_COUNT,
        decreases max_origin_group - g,
    {
        need_fine.push(g);
        assert(pages::page_numbers(n as int, g as int) == pages::page_numbers(
            n as int,
            g - 1,
        ).push(g));
        g = g + 1;
    }
    assert(pages::page_numbers(n as int, g - 1) == pages::page_numbers(
        n as int,
        max_origin_group - 1,
    ));
    need_fine
}

/// The pages of a group to send to the replica.
pub fn collect_pages_to_send(
    snapshot: &Snapshot,
    algorithm: HashAlgorithm,
    group_idx: u32,
    page_nos: &Vec<u32>,
    hashes: &Vec<PageHash>,
) -> (r: Vec<PageData>)
    requires
        snapshot.wf(),
        group_idx < MAX_GROUP_COUNT,
        page_nos@.len() == hashes@.len(),
        page_nos@.len() <= GROUP_SIZE,
        forall|i: int| 0 <= i < page_nos@.len() ==> 1 <= #[trigger] page_nos@[i],
    ensures
        messages::page_views(r@) == pages_to_send(
            algorithm,
            snapshot.pages(),
            group_idx as int,
            page_nos@,
            hash::hash_views(hashes@),
        ),
{
    proof {
        snapshot.lemma_page_count();
    }
    let page_count: u32 = snapshot.page_count();
    let ghost db = snapshot.pages();
    let ghost replica_hashes = hash::hash_views(hashes@);
    let mut out: Vec<PageData> = Vec::new();
    let n: usize = page_nos.len();
    let mut i: usize = 0;
    assert(messages::page_views(out@) == Seq::<(u32, Seq<u8>)>::empty());
    while i < n
        invariant
            i <= n == page_nos@.len(),
            n == hashes@.len(),
            snapshot.wf(),
            db == snapshot.pages(),
            replica_hashes == hash::hash_views(hashes@),
            page_count == db.len(),
            forall|j: int| 0 <= j < page_nos@.len() ==> 1 <= #[trigger] page_nos@[j],
            messages::page_views(out@) == changed_pages(
                algorithm,
                db,
                page_nos@,
                replica_hashes,
                i as int,
            ),
        decreases n - i,
    {
        let ghost before = messages::page_views(out@);
        if page_nos[i] <= page_count {
            match changed_page_for(page_nos[i], &hashes[i], snapshot, algorithm) {
                Some(page) => {
                    let ghost content = page@;
                    out.push(page);
                    assert(messages::page_views(out@) == before.push(content));
                },
                None => {},
            }
        }
        i = i + 1;
    }
    let first_page: u32 = group_idx * GROUP_SIZE + 1;
    let full: u32 = (group_idx + 1) * GROUP_SIZE;
    let last_page: u32 = if full <= page_count {
        full
    } else {
        page_count
    };
    let start: u32 = first_page + n as u32;
    let ghost head = messages::page_views(out@);
    let mut p: u32 = start;
    assert(head + page_run(db, start as int, p - 1) == head);
    while p <= last_page
        invariant
            start <= p,
            1 <= start,
            p <= last_page + 1 || p == start,
            last_page <= page_count == db.len(),
            page_count <= MAX_PAGE_COUNT,
            snapshot.wf(),
            db == snapshot.pages(),
            messages::page_views(out@) == head + page_run(db, start as int, p - 1),
        decreases last_page + 1 - p,
    {
        let ghost before = messages::page_views(out@);
        let page: PageData = PageData {
            page_no: p,
            data: vstd::slice::slice_to_vec(snapshot.page(p)),
        };
        let ghost content = page@;
        out.push(page);
        assert(messages::page_views(out@) == before.push(content));
        assert(page_run(db, start as int, p as int) == page_run(db, start as int, p - 1).push(
            content,
        ));
        p = p + 1;
    }
    assert(page_run(db, start as int, p - 1) == page_run(db, start as int, last_page as int));
    out
}

// ---------------------------------------------------------------------------
// Session
// ---------------------------------------------------------------------------

/// What an origin waits for.
pub enum OriginPhase {
    /// The replica's [`Message::Hello`].
    Hello,
    /// The replica's group hashes.
    Groups { algorithm: HashAlgorithm },
    /// The page hashes of group `need_fine[next]`.
    Pages { algorithm: HashAlgorithm, need_fine: Vec<u32>, next: usize },
    /// The acknowledgement of the pages `expected` of group `need_fine[next]`.
    Ack { algorithm: HashAlgorithm, need_fine: Vec<u32>, next: usize, expected: Vec<u32> },
    /// Nothing: the session is over.
    Over,
}

/// The content of an [`OriginPhase`].
#[verifier::ext_equal]
pub enum OriginPhaseView {
    Hello,
    Groups { algorithm: HashAlgorithm },
    Pages { algorithm: HashAlgorithm, need_fine: Seq<u32>, next: nat },
    Ack { algorithm: HashAlgorithm, need_fine: Seq<u32>, next: nat, expected: Seq<u32> },
    Over,
}

impl View for OriginPhase {
    type V = OriginPhaseView;

    open spec fn view(&self) -> OriginPhaseView {
        match *self {
            OriginPhase::Hello => OriginPhaseView::Hello,
            OriginPhase::Groups { algorithm } => OriginPhaseView::Groups { algorithm },
            OriginPhase::Pages { algorithm, need_fine, next } => OriginPhaseView::Pages {
                algorithm,
                need_fine: need_fine@,
                next: next as nat,
            },
            OriginPhase::Ack { algorithm, need_fine, next, expected } => OriginPhaseView::Ack {
                algorithm,
                need_fine: need_fine@,
                next: next as nat,
                expected: expected@,
            },
            OriginPhase::Over => OriginPhaseView::Over,
        }
    }
}

/// The protocol version that the endpoints agree on.
pub open spec fn negotiated(offered: u32) -> u32 {
    if offered <= PROTOCOL_VERSION {
        offered
    } else {
        PROTOCOL_VERSION
    }
}

/// The error text for a message of the wrong kind.
pub open spec fn unexpected(wanted: Seq<char>, got: MessageView) -> Seq<char> {
    "expected "@ + wanted + ", got "@ + got.debug_text()
}

/// The answer to the first message.
pub open spec fn on_hello(page_size: u32, db: Seq<Seq<u8>>, msg: MessageView) -> (
    OriginPhaseView,
    StepView,
) {
    match msg {
        MessageView::Hello { version, page_size: replica_page_size, .. } => if version == 0 {
            (
                OriginPhaseView::Over,
                StepView::Violation("replica offered unsupported protocol version 0"@),
            )
        } else if page_size != replica_page_size && replica_page_size != 0 {
            (
                OriginPhaseView::Over,
                StepView::PageSizeMismatch {
                    message: "page size mismatch: origin="@ + text::decimal(page_size as nat)
                        + ", replica="@ + text::decimal(replica_page_size as nat),
                    origin: page_size,
                    replica: replica_page_size,
                },
            )
        } else {
            (
                OriginPhaseView::Groups {
                    algorithm: HashAlgorithm::of_version(negotiated(version))->0,
                },
                StepView::Reply(
                    seq![
                        MessageView::HelloAck {
                            version: negotiated(version),
                            page_size,
                            page_count: db.len() as u32,
                        },
                    ],
                ),
            )
        },
        _ => (OriginPhaseView::Over, StepView::Violation(unexpected("Hello"@, msg))),
    }
}

/// The answer to the group hashes.
pub open spec fn on_groups(
    db: Seq<Seq<u8>>,
    algorithm: HashAlgorithm,
    msg: MessageView,
) -> (OriginPhaseView, StepView) {
    match msg {
        MessageView::GroupHashes { first_group, hashes } => if first_group != 0 {
            (
                OriginPhaseView::Over,
                StepView::Violation(
                    "unsupported GroupHashes.first_group="@ + text::decimal(first_group as nat)
                        + "; this protocol version requires first_group=0"@,
                ),
            )
        } else {
            let need_fine = groups_needing_fine(algorithm, db, hashes);
            let list = MessageView::GroupsNeedFine { group_indices: need_fine };
            if need_fine.len() == 0 {
                (OriginPhaseView::Over, StepView::Finish(seq![list, MessageView::Done]))
            } else {
                (
                    OriginPhaseView::Pages { algorithm, need_fine, next: 0 },
                    StepView::Reply(seq![list]),
                )
            }
        },
        _ => (OriginPhaseView::Over, StepView::Violation(unexpected("GroupHashes"@, msg))),
    }
}

/// The answer to the page hashes of group `need_fine[next]`.
pub open spec fn on_pages(
    db: Seq<Seq<u8>>,
    algorithm: HashAlgorithm,
    need_fine: Seq<u32>,
    next: nat,
    msg: MessageView,
) -> (OriginPhaseView, StepView) {
    match msg {
        MessageView::PageHashes { page_nos, hashes } => match page_hashes_error(
            page_nos,
            hashes.len(),
            need_fine[next as int],
        ) {
            Some(e) => (OriginPhaseView::Over, StepView::Violation(e)),
            None => {
                let sent = pages_to_send(
                    algorithm,
                    db,
                    need_fine[next as int] as int,
                    page_nos,
                    hashes,
                );
                (
                    OriginPhaseView::Ack {
                        algorithm,
                        need_fine,
                        next,
                        expected: numbers_of(sent),
                    },
                    StepView::Reply(seq![MessageView::SendPages { pages: sent }]),
                )
            },
        },
        MessageView::Done => (
            OriginPhaseView::Over,
            StepView::Violation(
                "received Done before all requested fine-pass groups were processed"@,
            ),
        ),
        _ => (OriginPhaseView::Over, StepView::Violation(unexpected("PageHashes"@, msg))),
    }
}

/// The answer to the acknowledgement of the pages of group `need_fine[next]`.
pub open spec fn on_ack(
    algorithm: HashAlgorithm,
    need_fine: Seq<u32>,
    next: nat,
    expected: Seq<u32>,
    msg: MessageView,
) -> (OriginPhaseView, StepView) {
    match msg {
        MessageView::PagesAck { page_nos } => match ack_error(expected, page_nos) {
            Some(e) => (OriginPhaseView::Over, StepView::Violation(e)),
            None => if next < need_fine.len() - 1 {
                (
                    OriginPhaseView::Pages { algorithm, need_fine, next: next + 1 },
                    StepView::Reply(Seq::empty()),
                )
            } else {
                (OriginPhaseView::Over, StepView::Finish(seq![MessageView::Done]))
            },
        },
        _ => (OriginPhaseView::Over, StepView::Violation(unexpected("PagesAck"@, msg))),
    }
}

/// What an origin with the pages `db` does with a message: the phase it enters
/// and its answer.
pub open spec fn origin_next(
    page_size: u32,
    db: Seq<Seq<u8>>,
    phase: OriginPhaseView,
    msg: MessageView,
) -> (OriginPhaseView, StepView) {
    match phase {
        OriginPhaseView::Hello => on_hello(page_size, db, msg),
        OriginPhaseView::Groups { algorithm } => on_groups(db, algorithm, msg),
        OriginPhaseView::Pages { algorithm, need_fine, next } => on_pages(
            db,
            algorithm,
            need_fine,
            next,
            msg,
        ),
        OriginPhaseView::Ack { algorithm, need_fine, next, expected } => on_ack(
            algorithm,
            need_fine,
            next,
            expected,
            msg,
        ),
        OriginPhaseView::Over => (OriginPhaseView::Over, StepView::Reply(Seq::empty())),
    }
}

/// The messages that an origin can work on in a phase: its session is not over,
/// and the page numbers of all listed groups fit into 32 bits.
pub open spec fn workable(phase: OriginPhaseView, msg: MessageView) -> bool {
    match phase {
        OriginPhaseView::Over => false,
        OriginPhaseView::Groups { .. } => msg matches MessageView::GroupHashes { hashes, .. }
            ==> hashes.len() <= MAX_GROUP_COUNT,
        _ => true,
    }
}

/// The error text for a message of the wrong kind.
pub(crate) fn unexpected_text(wanted: &str, got: &Message) -> (r: String)
    ensures
        r@ == unexpected(wanted@, got@),
{
    let mut m: String = "expected ".to_owned();
    m.append(wanted);
    m.append(", got ");
    m.append(got.debug_text().as_str());
    m
}

/// The origin's side of one sync session.
pub struct OriginSession {
    snapshot: Snapshot,
    phase: OriginPhase,
}

impl OriginSession {
    /// The snapshot is whole, and the groups of the fine pass are within it.
    pub closed spec fn wf(self) -> bool {
        &&& self.snapshot.wf()
        &&& match self.phase {
            OriginPhase::Pages { need_fine, next, .. } => {
                &&& next < need_fine@.len()
                &&& forall|i: int|
                    0 <= i < need_fine@.len() ==> #[trigger] need_fine@[i] < MAX_GROUP_COUNT
            },
            OriginPhase::Ack { need_fine, next, .. } => {
                &&& next < need_fine@.len()
                &&& forall|i: int|
                    0 <= i < need_fine@.len() ==> #[trigger] need_fine@[i] < MAX_GROUP_COUNT
            },
            _ => true,
        }
    }

    /// The pages of the origin database.
    pub closed spec fn db(self) -> Seq<Seq<u8>> {
        self.snapshot.pages()
    }

    pub closed spec fn page_size(self) -> u32 {
        self.snapshot.size()
    }

    /// What the origin waits for.
    pub closed spec fn phase(self) -> OriginPhaseView {
        self.phase@
    }

    /// A session that waits for the replica's first message.
    pub fn new(snapshot: Snapshot) -> (r: OriginSession)
        requires
            snapshot.wf(),
        ensures
            r.wf(),
            r.db() == snapshot.pages(),
            r.page_size() == snapshot.size(),
            r.phase() == OriginPhaseView::Hello,
    {
        OriginSession { snapshot, phase: OriginPhase::Hello }
    }

    /// Whether the session can work on a message.
    pub fn can_work_on(&self, msg: &Message) -> (r: bool)
        ensures
            r == workable(self.phase(), msg@),
    {
        match &self.phase {
            OriginPhase::Over => false,
            OriginPhase::Groups { .. } => match msg {
                Message::GroupHashes { hashes, .. } => hashes.len() <= MAX_GROUP_COUNT as usize,
                _ => true,
            },
            _ => true,
        }
    }

    /// Work on the next message of the replica.
    pub fn on_message(&mut self, msg: Message) -> (r: Step)
        requires
            old(self).wf(),
            workable(old(self).phase(), msg@),
        ensures
            final(self).wf(),
            final(self).db() == old(self).db(),
            final(self).page_size() == old(self).page_size(),
            (final(self).phase(), r@) == origin_next(
                old(self).page_size(),
                old(self).db(),
                old(self).phase(),
                msg@,
            ),
    {
        let mut phase: OriginPhase = OriginPhase::Over;
        core::mem::swap(&mut phase, &mut self.phase);
        match phase {
            OriginPhase::Hello => self.hello(msg),
            OriginPhase::Groups { algorithm } => self.groups(algorithm, msg),
            OriginPhase::Pages { algorithm, need_fine, next } => self.fine(
                algorithm,
                need_fine,
                next,
                msg,
            ),
            OriginPhase::Ack { algorithm, need_fine, next, expected } => self.ack(
                algorithm,
                need_fine,
                next,
                expected,
                msg,
            ),
            OriginPhase::Over => Step::Reply(Vec::new()),
        }
    }

    fn hello(&mut self, msg: Message) -> (r: Step)
        requires
            old(self).wf(),
            old(self).phase() == OriginPhaseView::Over,
        ensures
            final(self).wf(),
            final(self).db() == old(self).db(),
            final(self).page_size() == old(self).page_size(),
            (final(self).phase(), r@) == on_hello(old(self).page_size(), old(self).db(), msg@),
    {
        match msg {
            Message::Hello { version, page_size: replica_page_size, .. } => {
                if version == 0 {
                    return Step::Violation(
                        "replica offered unsupported protocol version 0".to_owned(),
                    );
                }
                let origin_page_size: u32 = self.snapshot.page_size();
                if origin_page_size != replica_page_size && replica_page_size != 0 {
                    let mut m: String = "page size mismatch: origin=".to_owned();
                    m.append(text::u64_text(origin_page_size as u64).as_str());
                    m.append(", replica=");
                    m.append(text::u64_text(replica_page_size as u64).as_str());
                    return Step::PageSizeMismatch {
                        message: m,
                        origin: origin_page_size,
                        replica: replica_page_size,
                    };
                }
                let negotiated_version: u32 = if version <= PROTOCOL_VERSION {
                    version
                } else {
                    PROTOCOL_VERSION
                };
                let algorithm: HashAlgorithm = if negotiated_version == 1 {
                    HashAlgorithm::Sha256V1
                } else {
                    HashAlgorithm::Blake3V2
                };
                self.phase = OriginPhase::Groups { algorithm };
                let mut out: Vec<Message> = Vec::new();
                out.push(
                    Message::HelloAck {
                        version: negotiated_version,
                        page_size: origin_page_size,
                        page_count: self.snapshot.page_count(),
                    },
                );
                assert(messages::message_views(out@) == seq![out@[0]@]);
                Step::Reply(out)
            },
            other => Step::Violation(unexpected_text("Hello", &other)),
        }
    }

    fn groups(&mut self, algorithm: HashAlgorithm, msg: Message) -> (r: Step)
        requires
            old(self).wf(),
            old(self).phase() == OriginPhaseView::Over,
            msg@ matches MessageView::GroupHashes { hashes, .. } ==> hashes.len()
                <= MAX_GROUP_COUNT,
        ensures
            final(self).wf(),
            final(self).db() == old(self).db(),
            final(self).page_size() == old(self).page_size(),
            (final(self).phase(), r@) == on_groups(old(self).db(), algorithm, msg@),
    {
        match msg {
            Message::GroupHashes { first_group, hashes } => {
                if first_group != 0 {
                    let mut m: String = "unsupported GroupHashes.first_group=".to_owned();
                    m.append(text::u64_text(first_group as u64).as_str());
                    m.append("; this protocol version requires first_group=0");
                    return Step::Violation(m);
                }
                let need_fine: Vec<u32> = find_groups_needing_fine(
                    &self.snapshot,
                    algorithm,
                    &hashes,
                );
                let mut out: Vec<Message> = Vec::new();
                out.push(Message::GroupsNeedFine { group_indices: copy_numbers(&need_fine) });
                if need_fine.len() == 0 {
                    out.push(Message::Done);
                    assert(messages::message_views(out@) == seq![
                        MessageView::GroupsNeedFine { group_indices: need_fine@ },
                        MessageView::Done,
                    ]);
                    Step::Finish(out)
                } else {
                    assert(messages::message_views(out@) == seq![
                        MessageView::GroupsNeedFine { group_indices: need_fine@ },
                    ]);
                    self.phase = OriginPhase::Pages { algorithm, need_fine, next: 0 };
                    Step::Reply(out)
                }
            },
            other => Step::Violation(unexpected_text("GroupHashes", &other)),
        }
    }

    fn fine(
        &mut self,
        algorithm: HashAlgorithm,
        need_fine: Vec<u32>,
        next: usize,
        msg: Message,
    ) -> (r: Step)
        requires
            old(self).wf(),
            old(self).phase() == OriginPhaseView::Over,
            next < need_fine@.len(),
            forall|i: int|
                0 <= i < need_fine@.len() ==> #[trigger] need_fine@[i] < MAX_GROUP_COUNT,
        ensures
            final(self).wf(),
            final(self).db() == old(self).db(),
            final(self).page_size() == old(self).page_size(),
            (final(self).phase(), r@) == on_pages(
                old(self).db(),
                algorithm,
                need_fine@,
                next as nat,
                msg@,
            ),
    {
        match msg {
            Message::PageHashes { page_nos, hashes } => {
                let group_idx: u32 = need_fine[next];
                match validate_page_hashes_for_group(
                    page_nos.as_slice(),
                    hashes.as_slice(),
                    group_idx,
                ) {
                    Err(SyncError::Protocol(m)) => {
                        return Step::Violation(m);
                    },
                    Err(_) => {
                        assert(false);
                        return Step::Reply(Vec::new());
                    },
                    Ok(()) => {},
                }
                proof {
                    lemma_no_page_hashes_error(page_nos@, hashes@.len(), group_idx);
                }
                let sent: Vec<PageData> = collect_pages_to_send(
                    &self.snapshot,
                    algorithm,
                    group_idx,
                    &page_nos,
                    &hashes,
                );
                let expected: Vec<u32> = page_numbers_of(&sent);
                let ghost content = messages::page_views(sent@);
                assert(expected@ == numbers_of(content));
                self.phase = OriginPhase::Ack { algorithm, need_fine, next, expected };
                let mut out: Vec<Message> = Vec::new();
                out.push(Message::SendPages { pages: sent });
                assert(messages::message_views(out@) == seq![
                    MessageView::SendPages { pages: content },
                ]);
                Step::Reply(out)
            },
            Message::Done => Step::Violation(
                "received Done before all requested fine-pass groups were processed".to_owned(),
            ),
            other => Step::Violation(unexpected_text("PageHashes", &other)),
        }
    }

    fn ack(
        &mut self,
        algorithm: HashAlgorithm,
        need_fine: Vec<u32>,
        next: usize,
        expected: Vec<u32>,
        msg: Message,
    ) -> (r: Step)
        requires
            old(self).wf(),
            old(self).phase() == OriginPhaseView::Over,
            next < need_fine@.len(),
            forall|i: int|
                0 <= i < need_fine@.len() ==> #[trigger] need_fine@[i] < MAX_GROUP_COUNT,
        ensures
            final(self).wf(),
            final(self).db() == old(self).db(),
            final(self).page_size() == old(self).page_size(),
            (final(self).phase(), r@) == on_ack(
                algorithm,
                need_fine@,
                next as nat,
                expected@,
                msg@,
            ),
    {
        match msg {
            Message::PagesAck { page_nos } => {
                match validate_pages_ack(expected.as_slice(), page_nos.as_slice()) {
                    Err(SyncError::Protocol(m)) => {
                        return Step::Violation(m);
                    },
                    Err(_) => {
                        assert(false);
                        return Step::Reply(Vec::new());
                    },
                    Ok(()) => {},
                }
                let mut out: Vec<Message> = Vec::new();
                if next < need_fine.len() - 1 {
                    self.phase = OriginPhase::Pages { algorithm, need_fine, next: next + 1 };
                    assert(messages::message_views(out@) == Seq::<MessageView>::empty());
                    Step::Reply(out)
                } else {
                    out.push(Message::Done);
                    assert(messages::message_views(out@) == seq![MessageView::Done]);
                    Step::Finish(out)
                }
            },
            other => Step::Violation(unexpected_text("PagesAck", &other)),
        }
    }
}

/// A copy of a list of numbers.
pub fn copy_numbers(v: &Vec<u32>) -> (r: Vec<u32>)
    ensures
        r@ == v@,
{
    let mut out: Vec<u32> = Vec::new();
    out.extend_from_slice(v.as_slice());
    assert(out@ == v@);
    out
}

/// The numbers of the pages of a list.
pub fn page_numbers_of(list: &Vec<PageData>) -> (r: Vec<u32>)
    ensures
        r@ == numbers_of(messages::page_views(list@)),
{
    let mut out: Vec<u32> = Vec::new();
    let mut i: usize = 0;
    while i < list.len()
        invariant
            i <= list@.len(),
            out@.len() == i,
            forall|j: int| 0 <= j < i ==> out@[j] == #[trigger] list@[j].page_no,
        decreases list@.len() - i,
    {
        out.push(list[i].page_no);
        i = i + 1;
    }
    assert(out@ == numbers_of(messages::page_views(list@)));
    out
}

// ---------------------------------------------------------------------------
// What an origin accepts, compares and answers
// ---------------------------------------------------------------------------

proof fn lemma_prefix_is_accepted(page_nos: Seq<u32>, group_idx: u32, i: int)
    requires
        0 <= i <= page_nos.len() <= GROUP_SIZE,
        forall|j: int|
            0 <= j < page_nos.len() ==> (#[trigger] page_nos[j]) == group_idx * 64 + 1 + j,
    ensures
        page_no_error(page_nos, group_idx, i) is None,
        prefix_error(page_nos, group_idx, i) is None,
    decreases page_nos.len() - i,
{
    if i < page_nos.len() {
        lemma_prefix_is_accepted(page_nos, group_idx, i + 1);
        assert(page_nos[i] == group_idx * 64 + 1 + i);
        assert(!page_nos.take(i).contains(page_nos[i])) by {
            assert forall|j: int| 0 <= j < i implies page_nos.take(i)[j] != page_nos[i] by {
                assert(page_nos[j] == group_idx * 64 + 1 + j);
            }
        }
        if i > 0 {
            assert(page_nos[i - 1] == group_idx * 64 + 1 + (i - 1));
        }
    }
}

/// Page hashes are accepted exactly if there is one for each listed page, and the
/// listed pages are the first ones of the group, at most 64, in order.
pub proof fn law_page_hashes_are_accepted_for_the_first_pages(
    page_nos: Seq<u32>,
    hash_count: nat,
    group_idx: u32,
)
    ensures
        page_hashes_error(page_nos, hash_count, group_idx) is None <==> {
            &&& page_nos.len() == hash_count
            &&& page_nos.len() <= 64
            &&& forall|j: int|
                0 <= j < page_nos.len() ==> (#[trigger] page_nos[j]) == group_idx * 64 + 1 + j
        },
{
    if page_hashes_error(page_nos, hash_count, group_idx) is None {
        lemma_no_page_hashes_error(page_nos, hash_count, group_idx);
        lemma_valid_page_nos(page_nos, group_idx, 0);
    }
    if page_nos.len() == hash_count && page_nos.len() <= 64 && (forall|j: int|
        0 <= j < page_nos.len() ==> (#[trigger] page_nos[j]) == group_idx * 64 + 1 + j) {
        lemma_prefix_is_accepted(page_nos, group_idx, 0);
    }
}

/// An acknowledgement is accepted exactly if it names each page that was sent, each
/// once, and no other page.
pub proof fn law_ack_names_each_sent_page_once(expected: Seq<u32>, ack: Seq<u32>)
    ensures
        ack_error(expected, ack) is None <==> {
            &&& forall|i: int, j: int|
                0 <= i < j < ack.len() ==> (#[trigger] ack[i]) != (#[trigger] ack[j])
            &&& forall|p: u32| #[trigger] expected.contains(p) <==> ack.contains(p)
        },
{
    if expected.to_set() == ack.to_set() {
        assert forall|p: u32| #[trigger] expected.contains(p) <==> ack.contains(p) by {
            assert(expected.to_set().contains(p) == ack.to_set().contains(p));
        }
    }
    if forall|p: u32| #[trigger] expected.contains(p) <==> ack.contains(p) {
        assert(expected.to_set() =~= ack.to_set());
    }
}

proof fn lemma_differing_groups(
    algorithm: HashAlgorithm,
    db: Seq<Seq<u8>>,
    hashes: Seq<Seq<u8>>,
    n: int,
    g: u32,
)
    requires
        0 <= n <= hashes.len(),
        n <= MAX_GROUP_COUNT,
    ensures
        differing_groups(algorithm, db, hashes, n).contains(g) <==> g < n && group_differs(
            algorithm,
            db,
            g as int,
            hashes[g as int],
        ),
    decreases n,
{
    if n > 0 {
        let rest = differing_groups(algorithm, db, hashes, n - 1);
        let all = differing_groups(algorithm, db, hashes, n);
        lemma_differing_groups(algorithm, db, hashes, n - 1, g);
        if group_differs(algorithm, db, n - 1, hashes[n - 1]) {
            assert(all == rest.push((n - 1) as u32));
            if rest.contains(g) {
                let k = choose|k: int| 0 <= k < rest.len() && rest[k] == g;
                assert(all[k] == g);
            }
            assert(all[rest.len() as int] == (n - 1) as u32);
            if all.contains(g) && g != n - 1 {
                let k = choose|k: int| 0 <= k < all.len() && all[k] == g;
                assert(rest[k] == g);
            }
        }
    }
}

/// A group is inspected page by page exactly if the replica reported another hash for
/// it than that of the origin's pages, or if only one of the two has pages there.
pub proof fn law_groups_to_inspect(
    algorithm: HashAlgorithm,
    db: Seq<Seq<u8>>,
    hashes: Seq<Seq<u8>>,
    g: u32,
)
    requires
        hashes.len() <= MAX_GROUP_COUNT,
        db.len() <= MAX_PAGE_COUNT,
    ensures
        groups_needing_fine(algorithm, db, hashes).contains(g) <==> {
            ||| g < hashes.len() && (g * 64 >= db.len() || pages::group_hash(
                algorithm,
                db,
                g as int,
            ) != hashes[g as int])
            ||| g >= hashes.len() && g * 64 < db.len()
        },
{
    let n = hashes.len() as int;
    let m = pages::group_count(db.len() as int);
    let first = differing_groups(algorithm, db, hashes, n);
    let second = pages::page_numbers(n, m - 1);
    let all = groups_needing_fine(algorithm, db, hashes);
    lemma_differing_groups(algorithm, db, hashes, n, g);
    assert(all == first + second);
    if first.contains(g) {
        let k = choose|k: int| 0 <= k < first.len() && first[k] == g;
        assert(all[k] == g);
    }
    if n <= g < m {
        assert(second[g - n] == g);
        assert(all[first.len() + (g - n)] == g);
    }
    if all.contains(g) {
        let k = choose|k: int| 0 <= k < all.len() && all[k] == g;
        if k < first.len() {
            assert(first[k] == g);
        } else {
            assert(second[k - first.len()] == g);
        }
    }
}

proof fn lemma_changed_pages(
    algorithm: HashAlgorithm,
    db: Seq<Seq<u8>>,
    page_nos: Seq<u32>,
    hashes: Seq<Seq<u8>>,
    n: int,
    i: int,
)
    requires
        0 <= i < n <= page_nos.len(),
        1 <= page_nos[i] <= db.len(),
        hash::page_digest(algorithm, db[page_nos[i] - 1]) != hashes[i],
    ensures
        changed_pages(algorithm, db, page_nos, hashes, n).contains(
            (page_nos[i], db[page_nos[i] - 1]),
        ),
    decreases n,
{
    let all = changed_pages(algorithm, db, page_nos, hashes, n);
    let rest = changed_pages(algorithm, db, page_nos, hashes, n - 1);
    let want = (page_nos[i], db[page_nos[i] - 1]);
    if i == n - 1 {
        assert(all[rest.len() as int] == want);
    } else {
        lemma_changed_pages(algorithm, db, page_nos, hashes, n - 1, i);
        let k = choose|k: int| 0 <= k < rest.len() && rest[k] == want;
        assert(all[k] == want);
    }
}

/// Every page of a group that the origin has is sent, with its content, where the
/// replica did not list it or listed another hash.
pub proof fn law_changed_pages_are_sent(
    algorithm: HashAlgorithm,
    db: Seq<Seq<u8>>,
    g: int,
    page_nos: Seq<u32>,
    hashes: Seq<Seq<u8>>,
    p: u32,
)
    requires
        0 <= g < MAX_GROUP_COUNT,
        db.len() <= MAX_PAGE_COUNT,
        page_nos.len() == hashes.len(),
        page_nos.len() <= 64,
        forall|j: int| 0 <= j < page_nos.len() ==> (#[trigger] page_nos[j]) == g * 64 + 1 + j,
        g * 64 + 1 <= p <= g * 64 + 64,
        p <= db.len(),
        p > g * 64 + page_nos.len() || hash::page_digest(algorithm, db[p - 1]) != hashes[p - 1 - g
            * 64],
    ensures
        pages_to_send(algorithm, db, g, page_nos, hashes).contains((p, db[p - 1])),
{
    let n = page_nos.len() as int;
    let all = pages_to_send(algorithm, db, g, page_nos, hashes);
    let changed = changed_pages(algorithm, db, page_nos, hashes, n);
    let lo = pages::group_first(g) + n;
    let hi = pages::group_last(g, db.len() as int);
    let run = page_run(db, lo, hi);
    assert(all == changed + run);
    if p <= g * 64 + n {
        let i = p - 1 - g * 64;
        assert(page_nos[i] == p);
        lemma_changed_pages(algorithm, db, page_nos, hashes, n, i);
        let k = choose|k: int| 0 <= k < changed.len() && changed[k] == (p, db[p - 1]);
        assert(all[k] == (p, db[p - 1]));
    } else {
        assert(run[p - lo] == (p, db[p - 1]));
        assert(all[changed.len() + (p - lo)] == (p, db[p - 1]));
    }
}

/// A replica that offers a version from 1 on, with the page size of the origin or
/// none yet, is told that version or the origin's own where it is lower, with the
/// page size and the number of pages of the origin.
pub proof fn law_handshake_settles_on_the_lower_version(
    page_size: u32,
    db: Seq<Seq<u8>>,
    version: u32,
    replica_page_size: u32,
    page_count: u32,
)
    requires
        version >= 1,
        replica_page_size == page_size || replica_page_size == 0,
        db.len() <= MAX_PAGE_COUNT,
    ensures
        ({
            let (phase, step) = on_hello(
                page_size,
                db,
                MessageView::Hello { version, page_size: replica_page_size, page_count },
            );
            let settled = if version == 1 { 1u32 } else { 2u32 };
            &&& step == StepView::Reply(
                seq![
                    MessageView::HelloAck {
                        version: settled,
                        page_size,
                        page_count: db.len() as u32,
                    },
                ],
            )
            &&& phase == (OriginPhaseView::Groups {
                algorithm: if version == 1 {
                    HashAlgorithm::Sha256V1
                } else {
                    HashAlgorithm::Blake3V2
                },
            })
        }),
{
}

/// Version 0 is refused, and so is a replica with pages of another size, with both
/// sizes told; the session is then over.
pub proof fn law_handshake_refuses_what_does_not_fit(
    page_size: u32,
    db: Seq<Seq<u8>>,
    version: u32,
    replica_page_size: u32,
    page_count: u32,
)
    ensures
        ({
            let (phase, step) = on_hello(
                page_size,
                db,
                MessageView::Hello { version, page_size: replica_page_size, page_count },
            );
            &&& version == 0 ==> step is Violation && phase is Over
            &&& version > 0 && replica_page_size != 0 && replica_page_size != page_size ==> (
            step matches StepView::PageSizeMismatch { message, origin, replica } && origin
                == page_size && replica == replica_page_size) && phase is Over
        }),
{
}

/// A message of another kind than the one that the origin waits for is a violation,
/// and ends the session.
pub proof fn law_origin_refuses_other_messages(
    page_size: u32,
    db: Seq<Seq<u8>>,
    phase: OriginPhaseView,
    msg: MessageView,
)
    requires
        match phase {
            OriginPhaseView::Hello => !(msg is Hello),
            OriginPhaseView::Groups { .. } => !(msg is GroupHashes),
            OriginPhaseView::Pages { .. } => !(msg is PageHashes),
            OriginPhaseView::Ack { .. } => !(msg is PagesAck),
            OriginPhaseView::Over => false,
        },
    ensures
        origin_next(page_size, db, phase, msg).0 is Over,
        origin_next(page_size, db, phase, msg).1 is Violation,
{
}

/// The origin finishes exactly when nothing is left to inspect: at once where no group
/// differs, and else with the acknowledgement of the last group.
pub proof fn law_origin_finishes_when_all_is_done(
    page_size: u32,
    db: Seq<Seq<u8>>,
    phase: OriginPhaseView,
    msg: MessageView,
)
    requires
        !(phase is Over),
    ensures
        origin_next(page_size, db, phase, msg).1 is Finish <==> match (phase, msg) {
            (
                OriginPhaseView::Groups { algorithm },
                MessageView::GroupHashes { first_group, hashes },
            ) => first_group == 0 && groups_needing_fine(algorithm, db, hashes).len() == 0,
            (
                OriginPhaseView::Ack { algorithm, need_fine, next, expected },
                MessageView::PagesAck { page_nos },
            ) => ack_error(expected, page_nos) is None && next + 1 >= need_fine.len(),
            _ => false,
        },
        origin_next(page_size, db, phase, msg).1 matches StepView::Finish(out) ==> out.len() > 0
            && out.last() is Done,
{
}

/// The groups are inspected one after the other, in the order in which they were
/// listed.
pub proof fn law_groups_are_inspected_in_order(
    algorithm: HashAlgorithm,
    need_fine: Seq<u32>,
    next: nat,
    expected: Seq<u32>,
    page_nos: Seq<u32>,
)
    requires
        ack_error(expected, page_nos) is None,
        next + 1 < need_fine.len(),
    ensures
        on_ack(algorithm, need_fine, next, expected, MessageView::PagesAck { page_nos }) == (
            OriginPhaseView::Pages { algorithm, need_fine, next: next + 1 },
            StepView::Reply(Seq::empty()),
        ),
{
}

/// What was sent for a group is what has to be acknowledged, page by page.
pub proof fn law_sent_pages_have_to_be_acknowledged(
    db: Seq<Seq<u8>>,
    algorithm: HashAlgorithm,
    need_fine: Seq<u32>,
    next: nat,
    msg: MessageView,
    i: int,
)
    ensures
        on_pages(db, algorithm, need_fine, next, msg).0 matches OriginPhaseView::Ack {
            expected,
            ..
        } ==> {
            let sent = on_pages(
                db,
                algorithm,
                need_fine,
                next,
                msg,
            ).1->Reply_0[0]->SendPages_pages;
            &&& expected.len() == sent.len()
            &&& 0 <= i < sent.len() ==> expected[i] == sent[i].0
        },
{
}

proof fn lemma_distinct(s: Seq<u32>)
    ensures
        distinct(s).no_duplicates(),
        forall|p: u32| #[trigger] distinct(s).contains(p) <==> s.contains(p),
    decreases s.len(),
{
    if s.len() > 0 {
        let t = s.drop_last();
        let d = distinct(t);
        let x = s.last();
        lemma_distinct(t);
        assert(s =~= t.push(x));
        assert forall|p: u32| #[trigger] distinct(s).contains(p) <==> s.contains(p) by {
            assert(d.contains(p) == t.contains(p));
            if t.contains(p) {
                let k = choose|k: int| 0 <= k < t.len() && t[k] == p;
                assert(s[k] == p);
                let j = choose|j: int| 0 <= j < d.len() && d[j] == p;
                assert(distinct(s)[j] == p);
            }
            if p == x {
                assert(s[s.len() - 1] == p);
                if !t.contains(x) {
                    assert(distinct(s)[d.len() as int] == x);
                } else {
                    assert(d.contains(x));
                }
            }
            if distinct(s).contains(p) && !d.contains(p) {
                let j = choose|j: int| 0 <= j < distinct(s).len() && distinct(s)[j] == p;
                if j < d.len() {
                    assert(d[j] == p);
                }
                assert(p == x);
            }
            if s.contains(p) && p != x {
                let k = choose|k: int| 0 <= k < s.len() && s[k] == p;
                assert(t[k] == p);
            }
        }
        if !t.contains(x) {
            assert(!d.contains(x));
            assert forall|i: int, j: int|
                0 <= i < distinct(s).len() && 0 <= j < distinct(s).len() && i
                    != j implies distinct(s)[i] != distinct(s)[j] by {
                if i < d.len() && j < d.len() {
                    assert(d[i] != d[j]);
                } else if i < d.len() {
                    assert(d.contains(d[i]));
                } else {
                    assert(d.contains(d[j]));
                }
            }
        }
    }
}

/// The distinct items of a list are its items, each once.
pub proof fn law_distinct_items_are_the_items_once(s: Seq<u32>)
    ensures
        distinct(s).no_duplicates(),
        forall|p: u32| #[trigger] distinct(s).contains(p) <==> s.contains(p),
        s.no_duplicates() ==> distinct(s) == s,
    decreases s.len(),
{
    lemma_distinct(s);
    if s.no_duplicates() && s.len() > 0 {
        let t = s.drop_last();
        law_distinct_items_are_the_items_once(t);
        if t.contains(s.last()) {
            let k = choose|k: int| 0 <= k < t.len() && t[k] == s.last();
            assert(s[k] == s[s.len() - 1]);
        }
        assert(t.push(s.last()) =~= s);
    }
}

/// The group hashes have to start with the first group; then the groups to inspect
/// are told, and inspected from the first of them on.
pub proof fn law_group_hashes_start_the_fine_pass(
    db: Seq<Seq<u8>>,
    algorithm: HashAlgorithm,
    first_group: u32,
    hashes: Seq<Seq<u8>>,
)
    ensures
        ({
            let (phase, step) = on_groups(
                db,
                algorithm,
                MessageView::GroupHashes { first_group, hashes },
            );
            let fine = groups_needing_fine(algorithm, db, hashes);
            let list = MessageView::GroupsNeedFine { group_indices: fine };
            &&& first_group != 0 ==> phase is Over && step is Violation
            &&& first_group == 0 && fine.len() > 0 ==> phase == (OriginPhaseView::Pages {
                algorithm,
                need_fine: fine,
                next: 0,
            }) && step == StepView::Reply(seq![list])
            &&& first_group == 0 && fine.len() == 0 ==> phase is Over && step == StepView::Finish(
                seq![list, MessageView::Done],
            )
        }),
{
}

/// Page hashes that are not accepted end the session with what is wrong with them.
pub proof fn law_wrong_page_hashes_end_the_session(
    db: Seq<Seq<u8>>,
    algorithm: HashAlgorithm,
    need_fine: Seq<u32>,
    next: nat,
    page_nos: Seq<u32>,
    hashes: Seq<Seq<u8>>,
    e: Seq<char>,
)
    requires
        page_hashes_error(page_nos, hashes.len(), need_fine[next as int]) == Some(e),
    ensures
        on_pages(
            db,
            algorithm,
            need_fine,
            next,
            MessageView::PageHashes { page_nos, hashes },
        ) == (OriginPhaseView::Over, StepView::Violation(e)),
{
}

/// An acknowledgement that is not accepted ends the session with what is wrong with
/// it.
pub proof fn law_wrong_ack_ends_the_session(
    algorithm: HashAlgorithm,
    need_fine: Seq<u32>,
    next: nat,
    expected: Seq<u32>,
    page_nos: Seq<u32>,
    e: Seq<char>,
)
    requires
        ack_error(expected, page_nos) == Some(e),
    ensures
        on_ack(algorithm, need_fine, next, expected, MessageView::PagesAck { page_nos }) == (
            OriginPhaseView::Over,
            StepView::Violation(e),
        ),
{
}

/// What is wrong with page hashes is told: a page 0, one outside of the group, one
/// that was there before, and one out of order, whichever comes first.
pub proof fn law_first_wrong_page_is_told(page_nos: Seq<u32>, group_idx: u32, i: int)
    requires
        0 <= i < page_nos.len() <= 64,
        group_idx < MAX_GROUP_COUNT,
        forall|j: int| 0 <= j < i ==> (#[trigger] page_nos[j]) == group_idx * 64 + 1 + j,
    ensures
        ({
            let found = page_hashes_error(page_nos, page_nos.len(), group_idx);
            let p = page_nos[i];
            let first = group_idx * 64 + 1;
            &&& p == 0 ==> found == Some("PageHashes includes invalid page number 0"@)
            &&& p > 0 && (p < first || p > first + 63) ==> found == Some(
                "PageHashes page "@ + text::decimal(p as nat) + " is outside group "@
                    + text::decimal(group_idx as nat) + " range ["@ + text::decimal(first as nat)
                    + ", "@ + text::decimal((first + 63) as nat) + "]"@,
            )
            &&& first <= p < first + i ==> found == Some(
                "PageHashes contains duplicate page number "@ + text::decimal(p as nat),
            )
        }),
{
    lemma_first_wrong_page(page_nos, group_idx, i, 0);
    let p = page_nos[i];
    let first = group_idx * 64 + 1;
    if first <= p < first + i {
        assert(page_nos[p - first] == p);
        assert(page_nos.take(i)[p - first] == p);
        assert(page_nos.take(i).contains(p));
    }
}

proof fn lemma_first_wrong_page(page_nos: Seq<u32>, group_idx: u32, i: int, k: int)
    requires
        0 <= k <= i < page_nos.len() <= 64,
        group_idx < MAX_GROUP_COUNT,
        forall|j: int| 0 <= j < i ==> (#[trigger] page_nos[j]) == group_idx * 64 + 1 + j,
    ensures
        page_no_error(page_nos, group_idx, k) == page_no_error(page_nos, group_idx, i),
    decreases i - k,
{
    if k < i {
        lemma_first_wrong_page(page_nos, group_idx, i, k + 1);
        assert(page_nos[k] == group_idx * 64 + 1 + k);
        assert(!page_nos.take(k).contains(page_nos[k])) by {
            assert forall|j: int| 0 <= j < k implies page_nos.take(k)[j] != page_nos[k] by {
                assert(page_nos[j] == group_idx * 64 + 1 + j);
            }
        }
        if k > 0 {
            assert(page_nos[k - 1] == group_idx * 64 + 1 + (k - 1));
        }
    }
}

/// What is wrong with an acknowledgement is told: a page twice, before pages that
/// were not sent or not named.
pub proof fn law_wrong_ack_is_told(expected: Seq<u32>, ack: Seq<u32>, i: int, j: int)
    requires
        0 <= i < j < ack.len(),
        ack[i] == ack[j],
    ensures
        ack_error(expected, ack) == Some("PagesAck contains duplicate page numbers"@),
{
}

/// A message of another kind is told by what was waited for and what came.
pub proof fn law_unexpected_message_is_told(wanted: Seq<char>, got: MessageView)
    ensures
        unexpected(wanted, got) == "expected "@ + wanted + ", got "@ + got.debug_text(),
{
}

/// An origin can work on every message until its session is over, but for more groups
/// than page numbers reach.
pub proof fn law_origin_can_work_on_messages(phase: OriginPhaseView, msg: MessageView)
    ensures
        phase is Over ==> !workable(phase, msg),
        !(phase is Over) && !(msg is GroupHashes) ==> workable(phase, msg),
        !(phase is Over) && !(phase is Groups) ==> workable(phase, msg),
        phase is Groups ==> (msg matches MessageView::GroupHashes { hashes, .. } ==> (workable(
            phase,
            msg,
        ) <==> hashes.len() * 64 <= u32::MAX)),
{
}

} // verus!
