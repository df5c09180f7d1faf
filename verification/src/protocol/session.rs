//! A whole sync session: the two state machines joined by a reliable channel.
//!
//! The result is [`law_session_copies_origin`]: a session of the two endpoints
//! ends, on both sides without an error, with the replica holding exactly the
//! origin's pages.
use vstd::prelude::*;

use crate::hash;
use crate::hash::{HashAlgorithm, GROUP_SIZE};
use crate::protocol::messages::{MessageView, PROTOCOL_VERSION};
use crate::protocol::origin;
use crate::protocol::origin::OriginPhaseView;
use crate::protocol::pages;
use crate::protocol::pages::{MAX_GROUP_COUNT, MAX_PAGE_COUNT};
use crate::protocol::replica;
use crate::protocol::replica::ReplicaPhaseView;
use crate::protocol::step::StepView;

verus! {

/// The state of a session: the two endpoints, the replica's pages as they are
/// on disk, and the messages under way.
#[verifier::ext_equal]
pub struct World {
    pub origin: OriginPhaseView,
    pub replica: ReplicaPhaseView,
    pub disk: Seq<Seq<u8>>,
    pub to_origin: Seq<MessageView>,
    pub to_replica: Seq<MessageView>,
    pub failed: bool,
}

/// The pages after one page was written: a page beyond the end extends the
/// database, with zero bytes in the pages that were skipped.
pub open spec fn write_page(disk: Seq<Seq<u8>>, page: (u32, Seq<u8>)) -> Seq<Seq<u8>> {
    if 1 <= page.0 <= disk.len() {
        disk.update(page.0 - 1, page.1)
    } else {
        let gap = Seq::new(
            (page.0 - 1 - disk.len()) as nat,
            |i: int| Seq::new(page.1.len(), |k: int| 0u8),
        );
        (disk + gap).push(page.1)
    }
}

/// The pages after a list of pages was written in order.
pub open spec fn write_all(disk: Seq<Seq<u8>>, list: Seq<(u32, Seq<u8>)>) -> Seq<Seq<u8>>
    decreases list.len(),
{
    if list.len() == 0 {
        disk
    } else {
        write_page(write_all(disk, list.drop_last()), list.last())
    }
}

/// The first `page_count` pages, where there are more.
pub open spec fn cut(disk: Seq<Seq<u8>>, page_count: u32) -> Seq<Seq<u8>> {
    if page_count < disk.len() {
        disk.take(page_count as int)
    } else {
        disk
    }
}

/// The session after its first message: the replica introduced itself.
pub open spec fn start(page_size: u32, copy: Seq<Seq<u8>>) -> World {
    World {
        origin: OriginPhaseView::Hello,
        replica: ReplicaPhaseView::Ack,
        disk: copy,
        to_origin: seq![
            MessageView::Hello {
                version: PROTOCOL_VERSION,
                page_size,
                page_count: copy.len() as u32,
            },
        ],
        to_replica: Seq::empty(),
        failed: false,
    }
}

/// The origin takes the next message.
pub open spec fn origin_turn(page_size: u32, db: Seq<Seq<u8>>, w: World) -> World {
    let msg = w.to_origin[0];
    let (phase, answer) = origin::origin_next(page_size, db, w.origin, msg);
    let taken = World { origin: phase, to_origin: w.to_origin.skip(1), ..w };
    if !origin::workable(w.origin, msg) {
        World { failed: true, ..w }
    } else {
        match answer {
            StepView::Reply(out) => World { to_replica: w.to_replica + out, ..taken },
            StepView::Finish(out) => World { to_replica: w.to_replica + out, ..taken },
            _ => World { failed: true, ..taken },
        }
    }
}

/// The replica, which started with the pages `copy`, takes the next message.
pub open spec fn replica_turn(copy: Seq<Seq<u8>>, w: World) -> World {
    let msg = w.to_replica[0];
    let (phase, answer) = replica::replica_next(copy.len() as u32, w.replica, msg);
    let taken = World { replica: phase, to_replica: w.to_replica.skip(1), ..w };
    if !replica::workable(w.replica, msg) {
        World { failed: true, ..w }
    } else {
        match answer {
            StepView::Reply(out) => World { to_origin: w.to_origin + out, ..taken },
            StepView::Finish(out) => World { to_origin: w.to_origin + out, ..taken },
            StepView::ReadContent => {
                let (next, reply) = replica::on_content(
                    phase->Content_algorithm,
                    phase->Content_target,
                    copy,
                );
                World { replica: next, to_origin: w.to_origin + reply->Reply_0, ..taken }
            },
            StepView::Cut { page_count } => World { disk: cut(w.disk, page_count), ..taken },
            StepView::Write { pages: list, reply } => World {
                disk: write_all(w.disk, list),
                to_origin: w.to_origin + reply,
                ..taken
            },
            _ => World { failed: true, ..taken },
        }
    }
}

/// The session after one more message was taken.
pub open spec fn advance(page_size: u32, db: Seq<Seq<u8>>, copy: Seq<Seq<u8>>, w: World) -> World {
    if w.failed {
        w
    } else if w.to_origin.len() > 0 {
        origin_turn(page_size, db, w)
    } else if w.to_replica.len() > 0 {
        replica_turn(copy, w)
    } else {
        w
    }
}

/// The session after `n` more messages were taken.
pub open spec fn run(
    page_size: u32,
    db: Seq<Seq<u8>>,
    copy: Seq<Seq<u8>>,
    w: World,
    n: nat,
) -> World
    decreases n,
{
    if n == 0 {
        w
    } else {
        run(page_size, db, copy, advance(page_size, db, copy, w), (n - 1) as nat)
    }
}

/// Both endpoints completed the session, and the replica holds the pages `db`.
pub open spec fn complete(db: Seq<Seq<u8>>, w: World) -> bool {
    &&& !w.failed
    &&& w.origin == OriginPhaseView::Over
    &&& w.replica == ReplicaPhaseView::Over
    &&& w.to_origin.len() == 0
    &&& w.to_replica.len() == 0
    &&& w.disk == db
}

/// Among the pages and groups that the session compares, different content has
/// different hashes.
pub open spec fn no_collision(
    algorithm: HashAlgorithm,
    db: Seq<Seq<u8>>,
    copy: Seq<Seq<u8>>,
) -> bool {
    &&& forall|i: int|
        0 <= i < copy.len() && i < db.len() && hash::page_digest(algorithm, #[trigger] db[i])
            == hash::page_digest(algorithm, copy[i]) ==> db[i] == copy[i]
    &&& forall|g: int|
        0 <= g < replica::reported_groups(copy.len() as int) && pages::group_first(g) <= db.len()
            && #[trigger] pages::group_hash(algorithm, db, g) == pages::group_hash(
            algorithm,
            copy,
            g,
        ) ==> pages::page_hashes(
            algorithm,
            db,
            pages::group_first(g),
            pages::group_last(g, db.len() as int),
        ) == pages::page_hashes(
            algorithm,
            copy,
            pages::group_first(g),
            pages::group_last(g, copy.len() as int),
        )
}

// ---------------------------------------------------------------------------
// Writing
// ---------------------------------------------------------------------------

proof fn lemma_write_all_append(
    disk: Seq<Seq<u8>>,
    a: Seq<(u32, Seq<u8>)>,
    b: Seq<(u32, Seq<u8>)>,
)
    ensures
        write_all(disk, a + b) == write_all(write_all(disk, a), b),
    decreases b.len(),
{
    if b.len() == 0 {
        assert(a + b == a);
    } else {
        assert((a + b).drop_last() == a + b.drop_last());
        lemma_write_all_append(disk, a, b.drop_last());
    }
}

/// Writing the changed pages of a listing brings the listed pages up to date
/// that the origin has, and leaves all others.
proof fn lemma_write_changed(
    algorithm: HashAlgorithm,
    db: Seq<Seq<u8>>,
    copy: Seq<Seq<u8>>,
    disk: Seq<Seq<u8>>,
    page_nos: Seq<u32>,
    hashes: Seq<Seq<u8>>,
    from: int,
    n: int,
)
    requires
        no_collision(algorithm, db, copy),
        0 <= from,
        0 <= n <= page_nos.len() == hashes.len(),
        from + page_nos.len() <= copy.len() <= disk.len(),
        forall|i: int| 0 <= i < page_nos.len() ==> #[trigger] page_nos[i] == from + i + 1,
        forall|i: int|
            0 <= i < hashes.len() ==> #[trigger] hashes[i] == hash::page_digest(
                algorithm,
                copy[from + i],
            ),
        forall|i: int|
            from <= i < from + page_nos.len() && i < db.len() ==> #[trigger] disk[i] == copy[i],
    ensures
        ({
            let out = write_all(disk, origin::changed_pages(algorithm, db, page_nos, hashes, n));
            &&& out.len() == disk.len()
            &&& forall|i: int| from <= i < from + n && i < db.len() ==> #[trigger] out[i] == db[i]
            &&& forall|i: int|
                0 <= i < disk.len() && !(from <= i < from + n) ==> #[trigger] out[i] == disk[i]
        }),
    decreases n,
{
    if n > 0 {
        lemma_write_changed(algorithm, db, copy, disk, page_nos, hashes, from, n - 1);
        let rest = origin::changed_pages(algorithm, db, page_nos, hashes, n - 1);
        let list = origin::changed_pages(algorithm, db, page_nos, hashes, n);
        let at = from + n - 1;
        assert(page_nos[n - 1] == at + 1);
        assert(hashes[n - 1] == hash::page_digest(algorithm, copy[at]));
        if list.len() > rest.len() {
            assert(list.drop_last() == rest);
        } else if at < db.len() {
            assert(db[at] == copy[at]);
            assert(disk[at] == copy[at]);
        }
    }
}

/// Writing a run of pages right behind the last page appends them.
proof fn lemma_write_run(db: Seq<Seq<u8>>, disk: Seq<Seq<u8>>, lo: int, hi: int)
    requires
        1 <= lo,
        hi <= db.len() <= MAX_PAGE_COUNT,
        lo <= hi ==> disk.len() == lo - 1,
    ensures
        lo <= hi ==> write_all(disk, origin::page_run(db, lo, hi)).len() == hi,
        lo > hi ==> write_all(disk, origin::page_run(db, lo, hi)) == disk,
        forall|i: int|
            0 <= i < disk.len() ==> #[trigger] write_all(disk, origin::page_run(db, lo, hi))[i]
                == disk[i],
        forall|i: int|
            lo - 1 <= i < hi ==> #[trigger] write_all(disk, origin::page_run(db, lo, hi))[i]
                == db[i],
    decreases hi - lo + 1,
{
    let list = origin::page_run(db, lo, hi);
    if lo <= hi {
        lemma_write_run(db, disk, lo, hi - 1);
        assert(list.drop_last() == origin::page_run(db, lo, hi - 1));
        assert(list.last() == (hi as u32, db[hi - 1]));
        let before = write_all(disk, list.drop_last());
        if lo == hi {
            assert(before == disk);
        }
        assert(before.len() == hi - 1);
        let gap = Seq::new(
            (hi - 1 - before.len()) as nat,
            |i: int| Seq::new(db[hi - 1].len(), |k: int| 0u8),
        );
        assert(gap.len() == 0);
        assert(before + gap == before);
        assert(write_all(disk, list) == before.push(db[hi - 1]));
    } else {
        assert(list.len() == 0);
    }
}

// ---------------------------------------------------------------------------
// Listings and acknowledgements
// ---------------------------------------------------------------------------

proof fn lemma_listing_in_order(page_nos: Seq<u32>, g: u32, i: int)
    requires
        g < MAX_GROUP_COUNT,
        0 <= i <= page_nos.len() <= GROUP_SIZE,
        forall|j: int|
            0 <= j < page_nos.len() ==> #[trigger] page_nos[j] == pages::group_first(g as int) + j,
    ensures
        origin::page_no_error(page_nos, g, i) is None,
        origin::prefix_error(page_nos, g, i) is None,
    decreases page_nos.len() - i,
{
    if i < page_nos.len() {
        lemma_listing_in_order(page_nos, g, i + 1);
        assert(!page_nos.take(i).contains(page_nos[i])) by {
            if page_nos.take(i).contains(page_nos[i]) {
                let j = choose|j: int| 0 <= j < i && page_nos.take(i)[j] == page_nos[i];
                assert(page_nos[j] == pages::group_first(g as int) + j);
            }
        }
    }
}

/// The numbers of a list of pages go up, from at least `lo` to at most `hi`.
spec fn ascending(list: Seq<(u32, Seq<u8>)>, lo: int, hi: int) -> bool {
    &&& forall|i: int| 0 <= i < list.len() ==> lo <= (#[trigger] list[i]).0 <= hi
    &&& forall|i: int, j: int|
        0 <= i < j < list.len() ==> (#[trigger] list[i]).0 < (#[trigger] list[j]).0
}

proof fn lemma_changed_ascending(
    algorithm: HashAlgorithm,
    db: Seq<Seq<u8>>,
    page_nos: Seq<u32>,
    hashes: Seq<Seq<u8>>,
    lo: int,
    n: int,
)
    requires
        0 <= n <= page_nos.len(),
        forall|j: int| 0 <= j < page_nos.len() ==> #[trigger] page_nos[j] == lo + j,
    ensures
        ascending(origin::changed_pages(algorithm, db, page_nos, hashes, n), lo, lo + n - 1),
    decreases n,
{
    if n > 0 {
        lemma_changed_ascending(algorithm, db, page_nos, hashes, lo, n - 1);
        assert(page_nos[n - 1] == lo + n - 1);
    }
}

/// The origin accepts the acknowledgement of exactly the pages that it sent.
proof fn lemma_ack_accepted(list: Seq<(u32, Seq<u8>)>, lo: int, hi: int)
    requires
        ascending(list, lo, hi),
    ensures
        origin::ack_error(origin::numbers_of(list), origin::numbers_of(list)) is None,
{
    let numbers = origin::numbers_of(list);
    assert forall|i: int, j: int|
        0 <= i < numbers.len() && 0 <= j < numbers.len() && i != j implies numbers[i]
        != numbers[j] by {
        if i < j {
            assert(list[i].0 < list[j].0);
        } else {
            assert(list[j].0 < list[i].0);
        }
    }
    assert(numbers.no_duplicates());
}

// ---------------------------------------------------------------------------
// The groups of the fine pass
// ---------------------------------------------------------------------------

/// Where the groups `list` of the fine pass are those among the first `n` that
/// satisfy a condition, in order.
spec fn lists_groups(list: Seq<u32>, n: int, flagged: spec_fn(int) -> bool) -> bool {
    &&& forall|i: int| 0 <= i < list.len() ==> 0 <= (#[trigger] list[i]) < n && flagged(
        list[i] as int,
    )
    &&& forall|i: int, j: int| 0 <= i < j < list.len() ==> #[trigger] list[i] < #[trigger] list[j]
    &&& forall|g: int|
        0 <= g < n && #[trigger] flagged(g) ==> list.contains(g as u32)
}

proof fn lemma_differing_listed(
    algorithm: HashAlgorithm,
    db: Seq<Seq<u8>>,
    hashes: Seq<Seq<u8>>,
    n: int,
)
    requires
        0 <= n <= hashes.len(),
        n <= MAX_GROUP_COUNT,
    ensures
        lists_groups(
            origin::differing_groups(algorithm, db, hashes, n),
            n,
            |g: int| origin::group_differs(algorithm, db, g, hashes[g]),
        ),
    decreases n,
{
    let flagged = |g: int| origin::group_differs(algorithm, db, g, hashes[g]);
    let list = origin::differing_groups(algorithm, db, hashes, n);
    if n > 0 {
        lemma_differing_listed(algorithm, db, hashes, n - 1);
        let rest = origin::differing_groups(algorithm, db, hashes, n - 1);
        assert forall|g: int| 0 <= g < n && #[trigger] flagged(g) implies list.contains(
            g as u32,
        ) by {
            if g == n - 1 {
                assert(list[list.len() - 1] == (n - 1) as u32);
            } else {
                assert(rest.contains(g as u32));
                let j = choose|j: int| 0 <= j < rest.len() && rest[j] == g as u32;
                assert(list[j] == g as u32);
            }
        }
        assert forall|i: int| 0 <= i < list.len() implies 0 <= (#[trigger] list[i]) < n && flagged(
            list[i] as int,
        ) by {
            if i < rest.len() {
                assert(list[i] == rest[i]);
            }
        }
    }
}

/// The groups of the fine pass go up; they are the reported groups that differ
/// and the groups that only the origin has.
proof fn lemma_fine_groups(algorithm: HashAlgorithm, db: Seq<Seq<u8>>, hashes: Seq<Seq<u8>>)
    requires
        hashes.len() <= MAX_GROUP_COUNT,
        db.len() <= MAX_PAGE_COUNT,
    ensures
        ({
            let list = origin::groups_needing_fine(algorithm, db, hashes);
            let total = pages::group_count(db.len() as int);
            &&& forall|i: int|
                0 <= i < list.len() ==> (#[trigger] list[i] < hashes.len() || list[i] < total)
                    && list[i] < MAX_GROUP_COUNT
            &&& forall|i: int, j: int|
                0 <= i < j < list.len() ==> #[trigger] list[i] < #[trigger] list[j]
            &&& forall|g: int|
                0 <= g < hashes.len() && #[trigger] origin::group_differs(
                    algorithm,
                    db,
                    g,
                    hashes[g],
                ) ==> list.contains(g as u32)
            &&& forall|g: int|
                hashes.len() <= g < total ==> #[trigger] list.contains(g as u32)
        }),
{
    let n = hashes.len() as int;
    let total = pages::group_count(db.len() as int);
    let head = origin::differing_groups(algorithm, db, hashes, n);
    let tail = pages::page_numbers(n, total - 1);
    let list = origin::groups_needing_fine(algorithm, db, hashes);
    let flagged = |g: int| origin::group_differs(algorithm, db, g, hashes[g]);
    lemma_differing_listed(algorithm, db, hashes, n);
    assert(list == head + tail);
    assert forall|g: int|
        0 <= g < hashes.len() && #[trigger] origin::group_differs(
            algorithm,
            db,
            g,
            hashes[g],
        ) implies list.contains(g as u32) by {
        assert(flagged(g));
        let j = choose|j: int| 0 <= j < head.len() && head[j] == g as u32;
        assert(list[j] == g as u32);
    }
    assert forall|g: int| hashes.len() <= g < total implies #[trigger] list.contains(g as u32) by {
        assert(list[head.len() + (g - n)] == g as u32);
    }
}

/// What the fine pass relies on: its groups go up, they are within one of the
/// databases (or the one group of an empty database), every group of which the
/// replica lacks a page is among them, and the pages of all other groups are the
/// same.
spec fn setting(db: Seq<Seq<u8>>, copy: Seq<Seq<u8>>, fine: Seq<u32>) -> bool {
    &&& db.len() <= MAX_PAGE_COUNT
    &&& copy.len() <= MAX_PAGE_COUNT
    &&& forall|i: int|
        0 <= i < fine.len() ==> (#[trigger] fine[i] * GROUP_SIZE < db.len() || fine[i] * GROUP_SIZE
            < copy.len() || fine[i] == 0) && fine[i] < MAX_GROUP_COUNT
    &&& forall|i: int, j: int| 0 <= i < j < fine.len() ==> #[trigger] fine[i] < #[trigger] fine[j]
    &&& forall|g: int|
        0 <= g && g * GROUP_SIZE < db.len() && pages::group_last(g, db.len() as int) > copy.len()
            ==> #[trigger] fine.contains(g as u32)
    &&& forall|i: int|
        0 <= i < db.len() && !fine.contains((i / 64) as u32) ==> i < copy.len() && #[trigger] db[i]
            == copy[i]
}

proof fn lemma_setting(algorithm: HashAlgorithm, db: Seq<Seq<u8>>, copy: Seq<Seq<u8>>)
    requires
        no_collision(algorithm, db, copy),
        db.len() <= MAX_PAGE_COUNT,
        copy.len() <= MAX_PAGE_COUNT,
    ensures
        setting(
            db,
            copy,
            origin::groups_needing_fine(algorithm, db, replica::group_hashes(algorithm, copy)),
        ),
        replica::group_hashes(algorithm, copy).len() <= MAX_GROUP_COUNT,
{
    let hashes = replica::group_hashes(algorithm, copy);
    let fine = origin::groups_needing_fine(algorithm, db, hashes);
    let total = pages::group_count(db.len() as int);
    lemma_fine_groups(algorithm, db, hashes);
    assert forall|g: int|
        0 <= g && g * GROUP_SIZE < db.len() && pages::group_last(g, db.len() as int)
            > copy.len() implies #[trigger] fine.contains(g as u32) by {
        assert(g < total);
        if g < hashes.len() {
            let a = pages::page_hashes(
                algorithm,
                db,
                pages::group_first(g),
                pages::group_last(g, db.len() as int),
            );
            let b = pages::page_hashes(
                algorithm,
                copy,
                pages::group_first(g),
                pages::group_last(g, copy.len() as int),
            );
            assert(a.len() != b.len());
            assert(pages::group_hash(algorithm, db, g) != pages::group_hash(algorithm, copy, g));
            assert(hashes[g] == pages::group_hash(algorithm, copy, g));
            assert(origin::group_differs(algorithm, db, g, hashes[g]));
        }
    }
    assert forall|i: int| 0 <= i < db.len() && !fine.contains((i / 64) as u32) implies i
        < copy.len() && #[trigger] db[i] == copy[i] by {
        let g = i / 64;
        assert(g < total);
        assert(g < hashes.len());
        assert(hashes[g] == pages::group_hash(algorithm, copy, g));
        assert(!origin::group_differs(algorithm, db, g, hashes[g]));
        let a = pages::page_hashes(
            algorithm,
            db,
            pages::group_first(g),
            pages::group_last(g, db.len() as int),
        );
        let b = pages::page_hashes(
            algorithm,
            copy,
            pages::group_first(g),
            pages::group_last(g, copy.len() as int),
        );
        assert(a == b);
        let at = i - g * 64;
        assert(a[at] == hash::page_digest(algorithm, db[i]));
        assert(b[at] == hash::page_digest(algorithm, copy[i]));
    }
}

/// Group `g` is among the groups from index `k` on.
spec fn pending(fine: Seq<u32>, k: int, g: int) -> bool {
    exists|j: int| k <= j < fine.len() && #[trigger] fine[j] == g
}

/// The length of the replica before group `fine[k]` is worked on.
spec fn filled(db: Seq<Seq<u8>>, copy: Seq<Seq<u8>>, fine: Seq<u32>, k: int) -> int {
    if copy.len() >= db.len() {
        copy.len() as int
    } else if k >= fine.len() {
        db.len() as int
    } else if fine[k] * GROUP_SIZE <= copy.len() {
        copy.len() as int
    } else {
        fine[k] * GROUP_SIZE
    }
}

/// The replica before group `fine[k]` is worked on: of the pages that the origin
/// has, those of the groups to come are as they were, all others are the origin's.
spec fn halfway(
    db: Seq<Seq<u8>>,
    copy: Seq<Seq<u8>>,
    fine: Seq<u32>,
    k: int,
    disk: Seq<Seq<u8>>,
) -> bool {
    &&& disk.len() == filled(db, copy, fine, k)
    &&& forall|i: int|
        0 <= i < disk.len() && i < db.len() ==> if pending(fine, k, i / 64) {
            i < copy.len() && #[trigger] disk[i] == copy[i]
        } else {
            disk[i] == db[i]
        }
}

/// Where the replica has fewer pages than the origin, the group of the first
/// missing page is in the fine pass.
proof fn lemma_first_missing(db: Seq<Seq<u8>>, copy: Seq<Seq<u8>>, fine: Seq<u32>) -> (at: int)
    requires
        setting(db, copy, fine),
        copy.len() < db.len(),
    ensures
        0 <= at < fine.len(),
        fine[at] == copy.len() / 64,
{
    let q = (copy.len() / 64) as int;
    assert(q * GROUP_SIZE < db.len());
    assert(pages::group_last(q, db.len() as int) > copy.len());
    assert(fine.contains(q as u32));
    choose|j: int| 0 <= j < fine.len() && fine[j] == q as u32
}

proof fn lemma_before_fine(db: Seq<Seq<u8>>, copy: Seq<Seq<u8>>, fine: Seq<u32>)
    requires
        setting(db, copy, fine),
    ensures
        halfway(db, copy, fine, 0, copy),
{
    if copy.len() < db.len() {
        let at = lemma_first_missing(db, copy, fine);
        if at > 0 {
            assert(fine[0] < fine[at]);
        }
    }
    assert forall|i: int| 0 <= i < copy.len() && i < db.len() implies if pending(
        fine,
        0,
        i / 64,
    ) {
        i < copy.len() && #[trigger] copy[i] == copy[i]
    } else {
        copy[i] == db[i]
    } by {
        if !pending(fine, 0, i / 64) {
            if fine.contains((i / 64) as u32) {
                let j = choose|j: int| 0 <= j < fine.len() && fine[j] == (i / 64) as u32;
                assert(fine[j] == i / 64);
            }
            assert(db[i] == copy[i]);
        }
    }
}

/// The listed numbers and hashes of group `g` of the replica.
spec fn listed_numbers(copy: Seq<Seq<u8>>, g: int) -> Seq<u32> {
    pages::page_numbers(pages::group_first(g), pages::group_last(g, copy.len() as int))
}

spec fn listed_hashes(algorithm: HashAlgorithm, copy: Seq<Seq<u8>>, g: int) -> Seq<Seq<u8>> {
    Seq::new(
        listed_numbers(copy, g).len(),
        |i: int| hash::page_digest(algorithm, copy[g * 64 + i]),
    )
}

/// The pages that the origin sends for group `g`.
spec fn sent_for(
    algorithm: HashAlgorithm,
    db: Seq<Seq<u8>>,
    copy: Seq<Seq<u8>>,
    g: int,
) -> Seq<(u32, Seq<u8>)> {
    origin::pages_to_send(
        algorithm,
        db,
        g,
        listed_numbers(copy, g),
        listed_hashes(algorithm, copy, g),
    )
}

/// Working on one group keeps the replica halfway.
#[verifier::rlimit(40)]
proof fn lemma_one_group(
    algorithm: HashAlgorithm,
    db: Seq<Seq<u8>>,
    copy: Seq<Seq<u8>>,
    fine: Seq<u32>,
    k: int,
    disk: Seq<Seq<u8>>,
)
    requires
        no_collision(algorithm, db, copy),
        setting(db, copy, fine),
        0 <= k < fine.len(),
        halfway(db, copy, fine, k, disk),
    ensures
        halfway(
            db,
            copy,
            fine,
            k + 1,
            write_all(disk, sent_for(algorithm, db, copy, fine[k] as int)),
        ),
{
    let g = fine[k] as int;
    let from = g * 64;
    let numbers = listed_numbers(copy, g);
    let hashes = listed_hashes(algorithm, copy, g);
    let m = numbers.len() as int;
    let changed = origin::changed_pages(algorithm, db, numbers, hashes, m);
    let lo = pages::group_first(g) + m;
    let hi = pages::group_last(g, db.len() as int);
    let tail = origin::page_run(db, lo, hi);
    let first = write_all(disk, changed);
    let second = write_all(disk, sent_for(algorithm, db, copy, g));
    assert(copy.len() <= disk.len());
    assert(pending(fine, k, g)) by {
        assert(fine[k] == g);
    }
    if m == 0 {
        assert(changed.len() == 0);
        assert(first == disk);
    } else {
        assert forall|i: int|
            from <= i < from + m && i < db.len() implies #[trigger] disk[i] == copy[i] by {
            assert(i / 64 == g);
        }
        lemma_write_changed(algorithm, db, copy, disk, numbers, hashes, from, m);
    }
    lemma_write_all_append(disk, changed, tail);
    assert(second == write_all(first, tail));
    lemma_write_run(db, first, lo, hi);
    // The length.
    assert(second.len() == filled(db, copy, fine, k + 1)) by {
        if lo <= hi {
            if k + 1 < fine.len() {
                assert(fine[k] < fine[k + 1]);
            }
            if hi < db.len() {
                assert(hi == (g + 1) * 64);
                assert(pages::group_last(g + 1, db.len() as int) > copy.len());
                assert(fine.contains((g + 1) as u32));
                let j = choose|j: int| 0 <= j < fine.len() && fine[j] == (g + 1) as u32;
                assert(fine[j] == g + 1);
                if j < k {
                    assert(fine[j] < fine[k]);
                }
                assert(j > k);
                if j > k + 1 {
                    assert(fine[k + 1] < fine[j]);
                }
            }
        } else if copy.len() < db.len() {
            let at = lemma_first_missing(db, copy, fine);
            if at < k {
                assert(fine[at] < fine[k]);
            }
            if at > k + 1 {
                assert(fine[k + 1] < fine[at]);
            }
            assert(at > k);
        }
    }
    // The pages.
    assert forall|i: int| 0 <= i < second.len() && i < db.len() implies if pending(
        fine,
        k + 1,
        i / 64,
    ) {
        i < copy.len() && #[trigger] second[i] == copy[i]
    } else {
        second[i] == db[i]
    } by {
        if i / 64 == g {
            assert(!pending(fine, k + 1, g)) by {
                if pending(fine, k + 1, g) {
                    let j = choose|j: int| k + 1 <= j < fine.len() && #[trigger] fine[j] == g;
                    assert(fine[k] < fine[j]);
                }
            }
            if i < from + m {
                assert(first[i] == db[i]);
            }
        } else {
            assert(i < disk.len());
            assert(first[i] == disk[i]);
            if pending(fine, k, i / 64) {
                let j = choose|j: int| k <= j < fine.len() && #[trigger] fine[j] == i / 64;
                assert(k + 1 <= j < fine.len() && fine[j] == i / 64);
            } else {
                assert(!pending(fine, k + 1, i / 64));
            }
            assert(disk[i] == disk[i]);
        }
    }
}

// ---------------------------------------------------------------------------
// Turns
// ---------------------------------------------------------------------------

proof fn lemma_run_after(
    page_size: u32,
    db: Seq<Seq<u8>>,
    copy: Seq<Seq<u8>>,
    w: World,
    a: nat,
    b: nat,
)
    ensures
        run(page_size, db, copy, run(page_size, db, copy, w, a), b) == run(
            page_size,
            db,
            copy,
            w,
            a + b,
        ),
    decreases a,
{
    if a > 0 {
        lemma_run_after(
            page_size,
            db,
            copy,
            advance(page_size, db, copy, w),
            (a - 1) as nat,
            b,
        );
    }
}

/// The session when the page hashes of group `fine[k]` are on their way.
spec fn before_group(
    algorithm: HashAlgorithm,
    target: u32,
    copy: Seq<Seq<u8>>,
    fine: Seq<u32>,
    k: int,
    disk: Seq<Seq<u8>>,
) -> World {
    let hashes = pages::page_hashes(algorithm, copy, 1, copy.len() as int);
    World {
        origin: OriginPhaseView::Pages { algorithm, need_fine: fine, next: k as nat },
        replica: ReplicaPhaseView::Pages { hashes, need_fine: fine, next: k as nat, target },
        disk,
        to_origin: seq![replica::group_listing(hashes, fine[k] as int)],
        to_replica: Seq::empty(),
        failed: false,
    }
}

/// One group takes three messages: the page hashes, the changed pages, and
/// their acknowledgement.
#[verifier::rlimit(40)]
proof fn lemma_group_turns(
    page_size: u32,
    algorithm: HashAlgorithm,
    db: Seq<Seq<u8>>,
    copy: Seq<Seq<u8>>,
    fine: Seq<u32>,
    k: int,
    disk: Seq<Seq<u8>>,
)
    requires
        setting(db, copy, fine),
        0 <= k < fine.len(),
    ensures
        ({
            let after = run(
                page_size,
                db,
                copy,
                before_group(algorithm, db.len() as u32, copy, fine, k, disk),
                3,
            );
            let written = write_all(disk, sent_for(algorithm, db, copy, fine[k] as int));
            if k < fine.len() - 1 {
                after == before_group(algorithm, db.len() as u32, copy, fine, k + 1, written)
            } else {
                after == World {
                    origin: OriginPhaseView::Over,
                    replica: ReplicaPhaseView::Done { after_fine: true, target: db.len() as u32 },
                    disk: written,
                    to_origin: Seq::empty(),
                    to_replica: seq![MessageView::Done],
                    failed: false,
                }
            }
        }),
{
    let g = fine[k];
    let numbers = listed_numbers(copy, g as int);
    let hashes = listed_hashes(algorithm, copy, g as int);
    let all = pages::page_hashes(algorithm, copy, 1, copy.len() as int);
    let listing = replica::group_listing(all, g as int);
    let sent = sent_for(algorithm, db, copy, g as int);
    let written = write_all(disk, sent);
    let ack = MessageView::PagesAck { page_nos: origin::numbers_of(sent) };
    let w0 = before_group(algorithm, db.len() as u32, copy, fine, k, disk);
    // The page hashes arrive.
    assert(listing->PageHashes_page_nos =~= numbers);
    assert(listing->PageHashes_hashes =~= hashes);
    assert(numbers.len() <= GROUP_SIZE);
    lemma_listing_in_order(numbers, g, 0);
    assert(origin::page_hashes_error(numbers, hashes.len(), g) is None);
    assert(origin::workable(w0.origin, listing));
    let w1 = World {
        origin: OriginPhaseView::Ack {
            algorithm,
            need_fine: fine,
            next: k as nat,
            expected: origin::numbers_of(sent),
        },
        replica: w0.replica,
        disk,
        to_origin: Seq::empty(),
        to_replica: seq![MessageView::SendPages { pages: sent }],
        failed: false,
    };
    assert(advance(page_size, db, copy, w0) == w1) by {
        assert(w0.to_origin.skip(1) =~= Seq::<MessageView>::empty());
        assert(w0.to_replica + seq![MessageView::SendPages { pages: sent }] =~= w1.to_replica);
    }
    // The changed pages arrive.
    let w2 = advance(page_size, db, copy, w1);
    assert(w1.to_replica.skip(1) =~= Seq::<MessageView>::empty());
    // The acknowledgement arrives.
    lemma_changed_ascending(
        algorithm,
        db,
        numbers,
        hashes,
        pages::group_first(g as int),
        numbers.len() as int,
    );
    assert(ascending(sent, 0, u32::MAX as int)) by {
        let changed = origin::changed_pages(
            algorithm,
            db,
            numbers,
            hashes,
            numbers.len() as int,
        );
        let tail = origin::page_run(
            db,
            pages::group_first(g as int) + numbers.len(),
            pages::group_last(g as int, db.len() as int),
        );
        assert(sent == changed + tail);
        assert forall|i: int, j: int| 0 <= i < j < sent.len() implies (#[trigger] sent[i]).0 < (
        #[trigger] sent[j]).0 by {
            if j < changed.len() {
                assert(sent[i] == changed[i] && sent[j] == changed[j]);
            } else if i < changed.len() {
                assert(sent[i] == changed[i] && sent[j] == tail[j - changed.len()]);
            } else {
                assert(sent[i] == tail[i - changed.len()] && sent[j] == tail[j - changed.len()]);
            }
        }
    }
    lemma_ack_accepted(sent, 0, u32::MAX as int);
    let w3 = advance(page_size, db, copy, w2);
    if k < fine.len() - 1 {
        let next = replica::group_listing(all, fine[k + 1] as int);
        assert(w2.to_origin =~= seq![ack, next]);
        assert(w2.to_origin.skip(1) =~= seq![next]);
        assert(w3.to_replica =~= Seq::<MessageView>::empty());
        assert(w3 == before_group(algorithm, db.len() as u32, copy, fine, k + 1, written));
    } else {
        assert(w2.to_origin =~= seq![ack]);
        assert(w2.to_origin.skip(1) =~= Seq::<MessageView>::empty());
        assert(w3.to_replica =~= seq![MessageView::Done]);
    }
    reveal_with_fuel(run, 4);
}

/// The fine pass from group `fine[k]` on completes the session.
proof fn lemma_fine_pass(
    page_size: u32,
    algorithm: HashAlgorithm,
    db: Seq<Seq<u8>>,
    copy: Seq<Seq<u8>>,
    fine: Seq<u32>,
    k: int,
    disk: Seq<Seq<u8>>,
) -> (n: nat)
    requires
        no_collision(algorithm, db, copy),
        setting(db, copy, fine),
        0 <= k < fine.len(),
        halfway(db, copy, fine, k, disk),
    ensures
        complete(db, run(page_size, db, copy, before_group(algorithm, db.len() as u32, copy, fine, k, disk), n)),
    decreases fine.len() - k,
{
    let w = before_group(algorithm, db.len() as u32, copy, fine, k, disk);
    let written = write_all(disk, sent_for(algorithm, db, copy, fine[k] as int));
    lemma_one_group(algorithm, db, copy, fine, k, disk);
    lemma_group_turns(page_size, algorithm, db, copy, fine, k, disk);
    if k < fine.len() - 1 {
        let n = lemma_fine_pass(page_size, algorithm, db, copy, fine, k + 1, written);
        lemma_run_after(page_size, db, copy, w, 3, n);
        3 + n
    } else {
        let w3 = run(page_size, db, copy, w, 3);
        let w4 = advance(page_size, db, copy, w3);
        assert(w4.to_replica =~= Seq::<MessageView>::empty());
        assert(w4.to_origin =~= Seq::<MessageView>::empty());
        assert forall|i: int| 0 <= i < db.len() implies written[i] == db[i] by {
            assert(!pending(fine, k + 1, i / 64));
        }
        assert(w4.disk =~= db);
        assert(run(page_size, db, copy, w3, 1) == w4) by {
            reveal_with_fuel(run, 2);
        }
        lemma_run_after(page_size, db, copy, w, 3, 1);
        4
    }
}

/// A sync session copies the origin: whatever pages the two databases hold, be
/// the replica's fewer, as many or more, the session ends on both sides without
/// an error, no message that an endpoint cannot work on occurs in it, and the
/// replica then holds exactly the origin's pages. Different content that the
/// session compares is taken to have different hashes.
#[verifier::rlimit(40)]
pub proof fn law_session_copies_origin(page_size: u32, db: Seq<Seq<u8>>, copy: Seq<Seq<u8>>)
    requires
        db.len() <= MAX_PAGE_COUNT,
        copy.len() <= MAX_PAGE_COUNT,
        no_collision(HashAlgorithm::Blake3V2, db, copy),
    ensures
        exists|n: nat| complete(db, #[trigger] run(page_size, db, copy, start(page_size, copy), n)),
{
    let algorithm = HashAlgorithm::Blake3V2;
    let group_hashes = replica::group_hashes(algorithm, copy);
    let fine = origin::groups_needing_fine(algorithm, db, group_hashes);
    let hashes = pages::page_hashes(algorithm, copy, 1, copy.len() as int);
    lemma_setting(algorithm, db, copy);
    lemma_before_fine(db, copy, fine);
    let none = Seq::<MessageView>::empty();
    let w0 = start(page_size, copy);
    let w1 = advance(page_size, db, copy, w0);
    assert(w1.to_origin =~= none);
    assert(w1.origin == OriginPhaseView::Groups { algorithm });
    let w2 = advance(page_size, db, copy, w1);
    assert(w2.to_replica =~= none);
    if copy.len() == 0 {
        assert(copy =~= Seq::<Seq<u8>>::empty());
    }
    assert(w2.to_origin =~= seq![
        MessageView::GroupHashes { first_group: 0, hashes: group_hashes },
    ]);
    assert(w2.replica == ReplicaPhaseView::NeedFine { hashes, target: db.len() as u32 });
    let w3 = advance(page_size, db, copy, w2);
    assert(w3.to_origin =~= none);
    let list = MessageView::GroupsNeedFine { group_indices: fine };
    assert(replica::within_limit(fine)) by {
        assert forall|i: int| 0 <= i < fine.len() implies #[trigger] fine[i] < MAX_GROUP_COUNT by {}
    }
    let w4 = advance(page_size, db, copy, w3);
    assert(run(page_size, db, copy, w0, 4) == w4) by {
        reveal_with_fuel(run, 5);
    }
    if fine.len() == 0 {
        assert(w3.to_replica =~= seq![list, MessageView::Done]);
        assert(w4.to_replica =~= seq![MessageView::Done]);
        assert(w4.to_origin =~= none);
        let w5 = advance(page_size, db, copy, w4);
        assert(w5.to_replica =~= none);
        assert(w5.to_origin =~= none);
        assert forall|i: int| 0 <= i < db.len() implies copy[i] == db[i] by {
            assert(!pending(fine, 0, i / 64));
        }
        assert(w5.disk =~= db);
        assert(run(page_size, db, copy, w4, 1) == w5) by {
            reveal_with_fuel(run, 2);
        }
        lemma_run_after(page_size, db, copy, w0, 4, 1);
        assert(complete(db, run(page_size, db, copy, w0, 5)));
    } else {
        assert(w3.to_replica =~= seq![list]);
        assert(w4.to_replica =~= none);
        assert(w4.to_origin =~= seq![replica::group_listing(hashes, fine[0] as int)]);
        assert(w4 == before_group(algorithm, db.len() as u32, copy, fine, 0, copy));
        let n = lemma_fine_pass(page_size, algorithm, db, copy, fine, 0, copy);
        lemma_run_after(page_size, db, copy, w0, 4, n);
        assert(complete(db, run(page_size, db, copy, w0, 4 + n)));
    }
}

proof fn lemma_changed_differ(
    algorithm: HashAlgorithm,
    db: Seq<Seq<u8>>,
    copy: Seq<Seq<u8>>,
    page_nos: Seq<u32>,
    hashes: Seq<Seq<u8>>,
    n: int,
)
    requires
        0 <= n <= page_nos.len() == hashes.len(),
        forall|i: int|
            0 <= i < hashes.len() ==> #[trigger] hashes[i] == hash::page_digest(
                algorithm,
                copy[page_nos[i] - 1],
            ),
    ensures
        forall|i: int|
            0 <= i < origin::changed_pages(algorithm, db, page_nos, hashes, n).len() ==> {
                let sent = #[trigger] origin::changed_pages(algorithm, db, page_nos, hashes, n)[i];
                sent.0 <= db.len() && sent.1 == db[sent.0 - 1] && sent.1 != copy[sent.0 - 1]
            },
    decreases n,
{
    if n > 0 {
        lemma_changed_differ(algorithm, db, copy, page_nos, hashes, n - 1);
        let rest = origin::changed_pages(algorithm, db, page_nos, hashes, n - 1);
        let list = origin::changed_pages(algorithm, db, page_nos, hashes, n);
        assert(hashes[n - 1] == hash::page_digest(algorithm, copy[page_nos[n - 1] - 1]));
        assert forall|i: int| 0 <= i < list.len() implies {
            let sent = #[trigger] list[i];
            sent.0 <= db.len() && sent.1 == db[sent.0 - 1] && sent.1 != copy[sent.0 - 1]
        } by {
            if i < rest.len() {
                assert(list[i] == rest[i]);
            }
        }
    }
}

/// Only changed pages travel: every page that the origin sends in answer to a
/// replica's listing of a group is one of its own that the replica lacks or holds
/// with other content.
pub proof fn law_only_changed_pages_are_sent(
    algorithm: HashAlgorithm,
    db: Seq<Seq<u8>>,
    copy: Seq<Seq<u8>>,
    g: int,
)
    requires
        0 <= g < MAX_GROUP_COUNT,
        db.len() <= MAX_PAGE_COUNT,
        copy.len() <= MAX_PAGE_COUNT,
    ensures
        ({
            let listing = replica::group_listing(
                pages::page_hashes(algorithm, copy, 1, copy.len() as int),
                g,
            );
            let sent = origin::pages_to_send(
                algorithm,
                db,
                g,
                listing->PageHashes_page_nos,
                listing->PageHashes_hashes,
            );
            forall|i: int|
                0 <= i < sent.len() ==> {
                    let (p, data) = #[trigger] sent[i];
                    &&& 1 <= p <= db.len()
                    &&& data == db[p - 1]
                    &&& p > copy.len() || data != copy[p - 1]
                }
        }),
{
    let listing = replica::group_listing(
        pages::page_hashes(algorithm, copy, 1, copy.len() as int),
        g,
    );
    let numbers = listing->PageHashes_page_nos;
    let hashes = listing->PageHashes_hashes;
    let sent = origin::pages_to_send(algorithm, db, g, numbers, hashes);
    let changed = origin::changed_pages(algorithm, db, numbers, hashes, numbers.len() as int);
    lemma_changed_differ(algorithm, db, copy, numbers, hashes, numbers.len() as int);
    lemma_changed_ascending(
        algorithm,
        db,
        numbers,
        hashes,
        pages::group_first(g),
        numbers.len() as int,
    );
    assert forall|i: int| 0 <= i < sent.len() implies {
        let (p, data) = #[trigger] sent[i];
        &&& 1 <= p <= db.len()
        &&& data == db[p - 1]
        &&& p > copy.len() || data != copy[p - 1]
    } by {
        if i < changed.len() {
            assert(sent[i] == changed[i]);
        }
    }
}

/// Two equal, non-empty databases are found equal by their group hashes alone:
/// no group needs fine-grained inspection.
pub proof fn law_equal_databases_need_no_fine_pass(algorithm: HashAlgorithm, db: Seq<Seq<u8>>)
    requires
        0 < db.len() <= MAX_PAGE_COUNT,
    ensures
        origin::groups_needing_fine(algorithm, db, replica::group_hashes(algorithm, db)).len()
            == 0,
{
    let hashes = replica::group_hashes(algorithm, db);
    let n = hashes.len() as int;
    let fine = origin::groups_needing_fine(algorithm, db, hashes);
    lemma_differing_listed(algorithm, db, hashes, n);
    let head = origin::differing_groups(algorithm, db, hashes, n);
    if head.len() > 0 {
        let g = head[0] as int;
        assert(hashes[g] == pages::group_hash(algorithm, db, g));
        assert(origin::group_differs(algorithm, db, g, hashes[g]));
    }
    assert(pages::page_numbers(n, pages::group_count(db.len() as int) - 1).len() == 0);
}

} // verus!
