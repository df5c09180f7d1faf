//! Replica-side sync handler.
//!
//! The replica drives the protocol by:
//!
//! 1. Sending its current page hashes (coarse group hashes first).
//! 2. Sending fine-grained per-page hashes for groups the origin flagged.
//! 3. Receiving and applying changed pages sent by the origin.
//! 4. Waiting for [`Message::Done`], and giving up the pages that the origin does
//!    not have.
use vstd::prelude::*;

use crate::hash;
use crate::hash::{hash_group_for, HashAlgorithm, PageHash, GROUP_SIZE};
use crate::protocol::messages;
use crate::protocol::messages::{Message, MessageView, PROTOCOL_VERSION};
use crate::protocol::origin;
use crate::protocol::origin::{page_numbers_of, unexpected_text};
use crate::protocol::pages;
use crate::protocol::pages::{Snapshot, MAX_GROUP_COUNT, MAX_PAGE_COUNT};
use crate::protocol::step::{Step, StepView};
use crate::text;

verus! {

/// What a replica waits for. `target` is the number of the origin's pages.
pub enum ReplicaPhase {
    /// The origin's answer to [`Message::Hello`].
    Ack,
    /// The bytes of the replica database.
    Content { algorithm: HashAlgorithm, target: u32 },
    /// The list of groups to inspect page by page; `hashes` are the hashes of
    /// the replica's pages.
    NeedFine { hashes: Vec<PageHash>, target: u32 },
    /// The changed pages of group `need_fine[next]`.
    Pages { hashes: Vec<PageHash>, need_fine: Vec<u32>, next: usize, target: u32 },
    /// The origin's last message.
    Done { after_fine: bool, target: u32 },
    /// Nothing: the session is over.
    Over,
}

/// The content of a [`ReplicaPhase`].
#[verifier::ext_equal]
pub enum ReplicaPhaseView {
    Ack,
    Content { algorithm: HashAlgorithm, target: u32 },
    NeedFine { hashes: Seq<Seq<u8>>, target: u32 },
    Pages { hashes: Seq<Seq<u8>>, need_fine: Seq<u32>, next: nat, target: u32 },
    Done { after_fine: bool, target: u32 },
    Over,
}

impl View for ReplicaPhase {
    type V = ReplicaPhaseView;

    open spec fn view(&self) -> ReplicaPhaseView {
        match *self {
            ReplicaPhase::Ack => ReplicaPhaseView::Ack,
            ReplicaPhase::Content { algorithm, target } => ReplicaPhaseView::Content {
                algorithm,
                target,
            },
            ReplicaPhase::NeedFine { hashes, target } => ReplicaPhaseView::NeedFine {
                hashes: hash::hash_views(hashes@),
                target,
            },
            ReplicaPhase::Pages { hashes, need_fine, next, target } => ReplicaPhaseView::Pages {
                hashes: hash::hash_views(hashes@),
                need_fine: need_fine@,
                next: next as nat,
                target,
            },
            ReplicaPhase::Done { after_fine, target } => ReplicaPhaseView::Done {
                after_fine,
                target,
            },
            ReplicaPhase::Over => ReplicaPhaseView::Over,
        }
    }
}

/// The number of groups that a replica of `count` pages reports: at least one.
pub open spec fn reported_groups(count: int) -> int {
    if pages::group_count(count) >= 1 {
        pages::group_count(count)
    } else {
        1
    }
}

/// The group hashes that a replica reports.
pub open spec fn group_hashes(algorithm: HashAlgorithm, db: Seq<Seq<u8>>) -> Seq<Seq<u8>> {
    Seq::new(
        reported_groups(db.len() as int) as nat,
        |g: int| pages::group_hash(algorithm, db, g),
    )
}

/// The message that lists the replica's pages of a group with their hashes.
pub open spec fn group_listing(hashes: Seq<Seq<u8>>, g: int) -> MessageView {
    let first = pages::group_first(g);
    let numbers = pages::page_numbers(first, pages::group_last(g, hashes.len() as int));
    MessageView::PageHashes {
        page_nos: numbers,
        hashes: Seq::new(numbers.len(), |i: int| hashes[first - 1 + i]),
    }
}

/// What a replica does once it knows its own pages.
pub open spec fn on_content(algorithm: HashAlgorithm, target: u32, db: Seq<Seq<u8>>) -> (
    ReplicaPhaseView,
    StepView,
) {
    (
        ReplicaPhaseView::NeedFine {
            hashes: pages::page_hashes(algorithm, db, 1, db.len() as int),
            target,
        },
        StepView::Reply(
            seq![
                MessageView::GroupHashes { first_group: 0, hashes: group_hashes(algorithm, db) },
            ],
        ),
    )
}

/// The answer to the origin's handshake message.
pub open spec fn on_ack(page_count: u32, msg: MessageView) -> (ReplicaPhaseView, StepView) {
    match msg {
        MessageView::HelloAck { version, page_count: target, .. } => if version == 0 || version
            > PROTOCOL_VERSION {
            (
                ReplicaPhaseView::Over,
                StepView::Fail(
                    "invalid negotiated protocol version "@ + text::decimal(version as nat),
                ),
            )
        } else {
            let algorithm = HashAlgorithm::of_version(version)->0;
            if page_count == 0 {
                on_content(algorithm, target, Seq::empty())
            } else {
                (ReplicaPhaseView::Content { algorithm, target }, StepView::ReadContent)
            }
        },
        MessageView::Error { message } => (ReplicaPhaseView::Over, StepView::Fail(message)),
        _ => (ReplicaPhaseView::Over, StepView::Violation(origin::unexpected("HelloAck"@, msg))),
    }
}

/// How the session of a replica of `page_count` pages ends well: where it has more
/// than the origin, they are given up.
pub open spec fn ending(page_count: u32, target: u32) -> StepView {
    if page_count > target {
        StepView::Cut { page_count: target }
    } else {
        StepView::Finish(Seq::empty())
    }
}

/// The answer to the list of groups to inspect.
pub open spec fn on_need_fine(hashes: Seq<Seq<u8>>, target: u32, msg: MessageView) -> (
    ReplicaPhaseView,
    StepView,
) {
    match msg {
        MessageView::GroupsNeedFine { group_indices } => if group_indices.len() == 0 {
            (ReplicaPhaseView::Done { after_fine: false, target }, StepView::Reply(Seq::empty()))
        } else {
            (
                ReplicaPhaseView::Pages { hashes, need_fine: group_indices, next: 0, target },
                StepView::Reply(seq![group_listing(hashes, group_indices[0] as int)]),
            )
        },
        _ => (
            ReplicaPhaseView::Over,
            StepView::Violation(origin::unexpected("GroupsNeedFine"@, msg)),
        ),
    }
}

/// The answer to the changed pages of group `need_fine[next]`.
pub open spec fn on_pages(
    page_count: u32,
    hashes: Seq<Seq<u8>>,
    need_fine: Seq<u32>,
    next: nat,
    target: u32,
    msg: MessageView,
) -> (ReplicaPhaseView, StepView) {
    match msg {
        MessageView::SendPages { pages: sent } => {
            let ack = MessageView::PagesAck { page_nos: origin::numbers_of(sent) };
            if next < need_fine.len() - 1 {
                (
                    ReplicaPhaseView::Pages { hashes, need_fine, next: next + 1, target },
                    StepView::Write {
                        pages: sent,
                        reply: seq![ack, group_listing(hashes, need_fine[next as int + 1] as int)],
                    },
                )
            } else {
                (
                    ReplicaPhaseView::Done { after_fine: true, target },
                    StepView::Write { pages: sent, reply: seq![ack] },
                )
            }
        },
        MessageView::Done => (ReplicaPhaseView::Over, ending(page_count, target)),
        _ => (
            ReplicaPhaseView::Over,
            StepView::Violation(origin::unexpected("SendPages or Done"@, msg)),
        ),
    }
}

/// The answer to the origin's last message.
pub open spec fn on_done(
    page_count: u32,
    after_fine: bool,
    target: u32,
    msg: MessageView,
) -> (ReplicaPhaseView, StepView) {
    match msg {
        MessageView::Done => (ReplicaPhaseView::Over, ending(page_count, target)),
        _ => (
            ReplicaPhaseView::Over,
            StepView::Violation(
                if after_fine {
                    "expected Done after fine pass"@
                } else {
                    "expected Done after empty GroupsNeedFine"@
                },
            ),
        ),
    }
}

/// What a replica of `page_count` pages does with a message: the phase it enters
/// and its answer.
pub open spec fn replica_next(
    page_count: u32,
    phase: ReplicaPhaseView,
    msg: MessageView,
) -> (ReplicaPhaseView, StepView) {
    match phase {
        ReplicaPhaseView::Ack => on_ack(page_count, msg),
        ReplicaPhaseView::NeedFine { hashes, target } => on_need_fine(hashes, target, msg),
        ReplicaPhaseView::Pages { hashes, need_fine, next, target } => on_pages(
            page_count,
            hashes,
            need_fine,
            next,
            target,
            msg,
        ),
        ReplicaPhaseView::Done { after_fine, target } => on_done(
            page_count,
            after_fine,
            target,
            msg,
        ),
        _ => (phase, StepView::Reply(Seq::empty())),
    }
}

/// The messages that a replica can work on in a phase: it waits for a message,
/// and the page numbers of all listed groups fit into 32 bits.
pub open spec fn workable(phase: ReplicaPhaseView, msg: MessageView) -> bool {
    match phase {
        ReplicaPhaseView::Over => false,
        ReplicaPhaseView::Content { .. } => false,
        ReplicaPhaseView::NeedFine { .. } => msg matches MessageView::GroupsNeedFine {
            group_indices,
        } ==> within_limit(group_indices),
        _ => true,
    }
}

/// The page numbers of all listed groups fit into 32 bits.
pub open spec fn within_limit(group_indices: Seq<u32>) -> bool {
    forall|i: int| 0 <= i < group_indices.len() ==> #[trigger] group_indices[i] < MAX_GROUP_COUNT
}

/// Whether the page numbers of all listed groups fit into 32 bits.
fn all_within_limit(group_indices: &Vec<u32>) -> (r: bool)
    ensures
        r == within_limit(group_indices@),
{
    let mut i: usize = 0;
    while i < group_indices.len()
        invariant
            i <= group_indices@.len(),
            forall|j: int| 0 <= j < i ==> #[trigger] group_indices@[j] < MAX_GROUP_COUNT,
        decreases group_indices@.len() - i,
    {
        if group_indices[i] >= MAX_GROUP_COUNT {
            assert(group_indices@[i as int] >= MAX_GROUP_COUNT);
            return false;
        }
        i = i + 1;
    }
    true
}

/// The message that lists the replica's pages of a group with their hashes.
fn listing(hashes: &Vec<PageHash>, group_idx: u32) -> (r: Message)
    requires
        group_idx < MAX_GROUP_COUNT,
        hashes@.len() <= MAX_PAGE_COUNT,
    ensures
        r@ == group_listing(hash::hash_views(hashes@), group_idx as int),
{
    let page_count: u32 = hashes.len() as u32;
    let first_page: u32 = group_idx * GROUP_SIZE + 1;
    let full: u32 = (group_idx + 1) * GROUP_SIZE;
    let last_page: u32 = if full <= page_count {
        full
    } else {
        page_count
    };
    let mut page_nos: Vec<u32> = Vec::new();
    let mut out: Vec<PageHash> = Vec::new();
    let mut p: u32 = first_page;
    while p <= last_page
        invariant
            1 <= first_page <= p,
            p <= last_page + 1 || p == first_page,
            last_page <= hashes@.len() <= MAX_PAGE_COUNT,
            page_nos@.len() == p - first_page,
            out@.len() == p - first_page,
            forall|i: int| 0 <= i < page_nos@.len() ==> page_nos@[i] == first_page + i,
            forall|i: int| 0 <= i < out@.len() ==> #[trigger] out@[i] == hashes@[first_page - 1 + i],
        decreases last_page + 1 - p,
    {
        page_nos.push(p);
        out.push(hashes[p as usize - 1]);
        p = p + 1;
    }
    let r: Message = Message::PageHashes { page_nos, hashes: out };
    assert(r@ == group_listing(hash::hash_views(hashes@), group_idx as int)) by {
        let listed = group_listing(hash::hash_views(hashes@), group_idx as int);
        assert(page_nos@ =~= listed->PageHashes_page_nos);
        assert(hash::hash_views(out@) =~= listed->PageHashes_hashes);
    }
    r
}

/// The group hashes of the pages with these hashes.
fn hash_groups(algorithm: HashAlgorithm, hashes: &Vec<PageHash>, Ghost(db): Ghost<Seq<Seq<u8>>>) -> (r:
    Vec<PageHash>)
    requires
        db.len() <= MAX_PAGE_COUNT,
        hash::hash_views(hashes@) == pages::page_hashes(algorithm, db, 1, db.len() as int),
    ensures
        hash::hash_views(r@) == group_hashes(algorithm, db),
{
    assert(hash::hash_views(hashes@).len() == hashes@.len());
    let page_count: u32 = hashes.len() as u32;
    let groups: u32 = (page_count + (GROUP_SIZE - 1)) / GROUP_SIZE;
    let num_groups: u32 = if groups >= 1 {
        groups
    } else {
        1
    };
    let ghost all = group_hashes(algorithm, db);
    let mut out: Vec<PageHash> = Vec::new();
    let mut g: u32 = 0;
    while g < num_groups
        invariant
            g <= num_groups,
            num_groups == reported_groups(db.len() as int),
            page_count == db.len() == hashes@.len(),
            page_count <= MAX_PAGE_COUNT,
            hash::hash_views(hashes@) == pages::page_hashes(algorithm, db, 1, db.len() as int),
            all == group_hashes(algorithm, db),
            out@.len() == g,
            forall|i: int| 0 <= i < g ==> (#[trigger] out@[i])@ == all[i],
        decreases num_groups - g,
    {
        let from: u32 = g * GROUP_SIZE;
        let full: u32 = (g + 1) * GROUP_SIZE;
        let to: u32 = if full <= page_count {
            full
        } else {
            page_count
        };
        let part: &[PageHash] = vstd::slice::slice_subrange(
            hashes.as_slice(),
            from as usize,
            to as usize,
        );
        proof {
            let whole = hash::hash_views(hashes@);
            assert forall|i: int| 0 <= i < part@.len() implies part@[i]@ == whole[from + i] by {}
            assert(hash::hash_views(part@) =~= pages::page_hashes(
                algorithm,
                db,
                pages::group_first(g as int),
                pages::group_last(g as int, db.len() as int),
            ));
        }
        out.push(hash_group_for(part, algorithm));
        g = g + 1;
    }
    assert(hash::hash_views(out@) == all);
    out
}

/// The replica's side of one sync session.
pub struct ReplicaSession {
    page_size: u32,
    page_count: u32,
    phase: ReplicaPhase,
}

impl ReplicaSession {
    /// Every page number fits, and the groups of the fine pass are within it.
    pub closed spec fn wf(self) -> bool {
        &&& self.page_count <= MAX_PAGE_COUNT
        &&& match self.phase {
            ReplicaPhase::NeedFine { hashes, .. } => hashes@.len() == self.page_count,
            ReplicaPhase::Pages { hashes, need_fine, next, .. } => {
                &&& hashes@.len() == self.page_count
                &&& next < need_fine@.len()
                &&& forall|i: int|
                    0 <= i < need_fine@.len() ==> #[trigger] need_fine@[i] < MAX_GROUP_COUNT
            },
            _ => true,
        }
    }

    pub closed spec fn page_size(self) -> u32 {
        self.page_size
    }

    pub closed spec fn page_count(self) -> u32 {
        self.page_count
    }

    /// What the replica waits for.
    pub closed spec fn phase(self) -> ReplicaPhaseView {
        self.phase@
    }

    /// A session of a replica with `page_count` pages of `page_size` bytes, and
    /// the message that opens it.
    pub fn new(page_size: u32, page_count: u32) -> (r: (ReplicaSession, Message))
        requires
            page_count <= MAX_PAGE_COUNT,
        ensures
            r.0.wf(),
            r.0.page_size() == page_size,
            r.0.page_count() == page_count,
            r.0.phase() == ReplicaPhaseView::Ack,
            r.1@ == (MessageView::Hello { version: PROTOCOL_VERSION, page_size, page_count }),
    {
        (
            ReplicaSession { page_size, page_count, phase: ReplicaPhase::Ack },
            Message::Hello { version: PROTOCOL_VERSION, page_size, page_count },
        )
    }

    /// Whether the session can work on a message.
    pub fn can_work_on(&self, msg: &Message) -> (r: bool)
        ensures
            r == workable(self.phase(), msg@),
    {
        match &self.phase {
            ReplicaPhase::Over => false,
            ReplicaPhase::Content { .. } => false,
            ReplicaPhase::NeedFine { .. } => match msg {
                Message::GroupsNeedFine { group_indices } => all_within_limit(group_indices),
                _ => true,
            },
            _ => true,
        }
    }

    /// Report the bytes of the replica database.
    pub fn on_content(&mut self, bytes: Vec<u8>) -> (r: Step)
        requires
            old(self).wf(),
            old(self).phase() is Content,
            old(self).page_count() * old(self).page_size() <= bytes@.len(),
        ensures
            final(self).wf(),
            final(self).page_size() == old(self).page_size(),
            final(self).page_count() == old(self).page_count(),
            (final(self).phase(), r@) == on_content(
                old(self).phase()->Content_algorithm,
                old(self).phase()->Content_target,
                pages::pages_of(
                    bytes@,
                    old(self).page_size() as int,
                    old(self).page_count() as int,
                ),
            ),
    {
        let mut phase: ReplicaPhase = ReplicaPhase::Over;
        core::mem::swap(&mut phase, &mut self.phase);
        let ghost content = bytes@;
        match (phase, Snapshot::new(self.page_size, self.page_count, bytes)) {
            (ReplicaPhase::Content { algorithm, target }, Some(snapshot)) => {
                proof {
                    snapshot.lemma_page_count();
                    assert(snapshot.pages().len() == self.page_count);
                }
                let hashes: Vec<PageHash> = snapshot.hash_pages(algorithm, 1, self.page_count);
                let groups: Vec<PageHash> = hash_groups(
                    algorithm,
                    &hashes,
                    Ghost(snapshot.pages()),
                );
                assert(hash::hash_views(hashes@).len() == hashes@.len());
                self.phase = ReplicaPhase::NeedFine { hashes, target };
                let mut out: Vec<Message> = Vec::new();
                out.push(Message::GroupHashes { first_group: 0, hashes: groups });
                assert(messages::message_views(out@) == seq![out@[0]@]);
                Step::Reply(out)
            },
            _ => {
                assert(false);
                Step::Reply(Vec::new())
            },
        }
    }

    /// Work on the next message of the origin.
    pub fn on_message(&mut self, msg: Message) -> (r: Step)
        requires
            old(self).wf(),
            workable(old(self).phase(), msg@),
        ensures
            final(self).wf(),
            final(self).page_size() == old(self).page_size(),
            final(self).page_count() == old(self).page_count(),
            (final(self).phase(), r@) == replica_next(
                old(self).page_count(),
                old(self).phase(),
                msg@,
            ),
    {
        let mut phase: ReplicaPhase = ReplicaPhase::Over;
        core::mem::swap(&mut phase, &mut self.phase);
        match phase {
            ReplicaPhase::Ack => self.ack(msg),
            ReplicaPhase::NeedFine { hashes, target } => self.need_fine(hashes, target, msg),
            ReplicaPhase::Pages { hashes, need_fine, next, target } => self.changed(
                hashes,
                need_fine,
                next,
                target,
                msg,
            ),
            ReplicaPhase::Done { after_fine, target } => match msg {
                Message::Done => self.end(target),
                _ => if after_fine {
                    Step::Violation("expected Done after fine pass".to_owned())
                } else {
                    Step::Violation("expected Done after empty GroupsNeedFine".to_owned())
                },
            },
            ReplicaPhase::Content { .. } => Step::ReadContent,
            ReplicaPhase::Over => Step::ReadContent,
        }
    }

    fn end(&self, target: u32) -> (r: Step)
        ensures
            r@ == ending(self.page_count(), target),
    {
        if self.page_count > target {
            Step::Cut { page_count: target }
        } else {
            let out: Vec<Message> = Vec::new();
            assert(messages::message_views(out@) == Seq::<MessageView>::empty());
            Step::Finish(out)
        }
    }

    fn ack(&mut self, msg: Message) -> (r: Step)
        requires
            old(self).wf(),
            old(self).phase() == ReplicaPhaseView::Over,
        ensures
            final(self).wf(),
            final(self).page_size() == old(self).page_size(),
            final(self).page_count() == old(self).page_count(),
            (final(self).phase(), r@) == on_ack(old(self).page_count(), msg@),
    {
        match msg {
            Message::HelloAck { version, page_count: target, .. } => {
                if version == 0 || version > PROTOCOL_VERSION {
                    let mut m: String = "invalid negotiated protocol version ".to_owned();
                    m.append(text::u64_text(version as u64).as_str());
                    return Step::Fail(m);
                }
                let algorithm: HashAlgorithm = if version == 1 {
                    HashAlgorithm::Sha256V1
                } else {
                    HashAlgorithm::Blake3V2
                };
                self.phase = ReplicaPhase::Content { algorithm, target };
                if self.page_count == 0 {
                    let bytes: Vec<u8> = Vec::new();
                    assert(self.page_count * self.page_size == 0) by (nonlinear_arith)
                        requires
                            self.page_count == 0,
                    ;
                    assert(pages::pages_of(bytes@, self.page_size as int, 0) == Seq::<
                        Seq<u8>,
                    >::empty());
                    self.on_content(bytes)
                } else {
                    Step::ReadContent
                }
            },
            Message::Error { message } => Step::Fail(message),
            other => Step::Violation(unexpected_text("HelloAck", &other)),
        }
    }

    fn need_fine(&mut self, hashes: Vec<PageHash>, target: u32, msg: Message) -> (r: Step)
        requires
            old(self).wf(),
            old(self).phase() == ReplicaPhaseView::Over,
            hashes@.len() == old(self).page_count(),
            workable(
                ReplicaPhaseView::NeedFine { hashes: hash::hash_views(hashes@), target },
                msg@,
            ),
        ensures
            final(self).wf(),
            final(self).page_size() == old(self).page_size(),
            final(self).page_count() == old(self).page_count(),
            (final(self).phase(), r@) == on_need_fine(hash::hash_views(hashes@), target, msg@),
    {
        match msg {
            Message::GroupsNeedFine { group_indices } => {
                let mut out: Vec<Message> = Vec::new();
                if group_indices.len() == 0 {
                    assert(messages::message_views(out@) == Seq::<MessageView>::empty());
                    self.phase = ReplicaPhase::Done { after_fine: false, target };
                    return Step::Reply(out);
                }
                out.push(listing(&hashes, group_indices[0]));
                assert(messages::message_views(out@) == seq![out@[0]@]);
                self.phase = ReplicaPhase::Pages {
                    hashes,
                    need_fine: group_indices,
                    next: 0,
                    target,
                };
                Step::Reply(out)
            },
            other => Step::Violation(unexpected_text("GroupsNeedFine", &other)),
        }
    }

    fn changed(
        &mut self,
        hashes: Vec<PageHash>,
        need_fine: Vec<u32>,
        next: usize,
        target: u32,
        msg: Message,
    ) -> (r: Step)
        requires
            old(self).wf(),
            old(self).phase() == ReplicaPhaseView::Over,
            hashes@.len() == old(self).page_count(),
            next < need_fine@.len(),
            forall|i: int|
                0 <= i < need_fine@.len() ==> #[trigger] need_fine@[i] < MAX_GROUP_COUNT,
        ensures
            final(self).wf(),
            final(self).page_size() == old(self).page_size(),
            final(self).page_count() == old(self).page_count(),
            (final(self).phase(), r@) == on_pages(
                old(self).page_count(),
                hash::hash_views(hashes@),
                need_fine@,
                next as nat,
                target,
                msg@,
            ),
    {
        match msg {
            Message::SendPages { pages: sent } => {
                let mut out: Vec<Message> = Vec::new();
                out.push(Message::PagesAck { page_nos: page_numbers_of(&sent) });
                if next < need_fine.len() - 1 {
                    out.push(listing(&hashes, need_fine[next + 1]));
                    assert(messages::message_views(out@) == seq![out@[0]@, out@[1]@]);
                    self.phase = ReplicaPhase::Pages { hashes, need_fine, next: next + 1, target };
                } else {
                    assert(messages::message_views(out@) == seq![out@[0]@]);
                    self.phase = ReplicaPhase::Done { after_fine: true, target };
                }
                Step::Write { pages: sent, reply: out }
            },
            Message::Done => self.end(target),
            other => Step::Violation(unexpected_text("SendPages or Done", &other)),
        }
    }
}

// ---------------------------------------------------------------------------
// What a replica accepts and answers
// ---------------------------------------------------------------------------

/// A replica goes on with version 1 or 2, hashing as that version does, and with no
/// other; it keeps the number of pages of the origin for the end.
pub proof fn law_replica_takes_known_versions(
    page_count: u32,
    version: u32,
    page_size: u32,
    target: u32,
)
    ensures
        ({
            let (phase, step) = on_ack(
                page_count,
                MessageView::HelloAck { version, page_size, page_count: target },
            );
            let algorithm = if version == 1 {
                HashAlgorithm::Sha256V1
            } else {
                HashAlgorithm::Blake3V2
            };
            &&& version == 0 || version > 2 ==> phase is Over && step is Fail
            &&& 1 <= version <= 2 && page_count > 0 ==> phase == (ReplicaPhaseView::Content {
                algorithm,
                target,
            }) && step is ReadContent
            &&& 1 <= version <= 2 && page_count == 0 ==> phase == (ReplicaPhaseView::NeedFine {
                hashes: Seq::empty(),
                target,
            }) && (step matches StepView::Reply(out) && out.len() == 1 && out[0] is GroupHashes)
        }),
{
    if 1 <= version <= 2 && page_count == 0 {
        let algorithm = HashAlgorithm::of_version(version)->0;
        assert(pages::page_hashes(algorithm, Seq::<Seq<u8>>::empty(), 1, 0) =~= Seq::empty());
    }
}

/// An error of the origin ends the session with its text.
pub proof fn law_error_of_the_origin_is_passed_on(page_count: u32, message: Seq<char>)
    ensures
        on_ack(page_count, MessageView::Error { message }) == (
            ReplicaPhaseView::Over,
            StepView::Fail(message),
        ),
{
}

/// A replica reports the hashes of its groups from the first on, one for each group,
/// and one at least.
pub proof fn law_replica_reports_each_group(
    algorithm: HashAlgorithm,
    target: u32,
    db: Seq<Seq<u8>>,
    g: int,
)
    requires
        0 <= g,
        g == 0 || g * 64 < db.len(),
    ensures
        ({
            let (phase, step) = on_content(algorithm, target, db);
            &&& step matches StepView::Reply(out)
            &&& out.len() == 1
            &&& out[0] matches MessageView::GroupHashes { first_group, hashes }
            &&& first_group == 0
            &&& g < hashes.len()
            &&& hashes.len() == 1 || (hashes.len() - 1) * 64 < db.len()
            &&& hashes[g] == pages::group_hash(algorithm, db, g)
            &&& phase is NeedFine
            &&& phase->NeedFine_target == target
            &&& phase->NeedFine_hashes.len() == db.len()
        }),
{
}

/// The listing of a group has the pages of the group that the replica has, in order,
/// each with its hash.
pub proof fn law_listing_has_the_pages_of_the_group(hashes: Seq<Seq<u8>>, g: int, i: int)
    requires
        0 <= g < MAX_GROUP_COUNT,
        hashes.len() <= MAX_PAGE_COUNT,
    ensures
        group_listing(hashes, g) matches MessageView::PageHashes { page_nos, hashes: listed } && {
            &&& page_nos.len() == listed.len()
            &&& page_nos.len() == if hashes.len() <= g * 64 {
                0
            } else if hashes.len() < g * 64 + 64 {
                hashes.len() - g * 64
            } else {
                64
            }
            &&& 0 <= i < page_nos.len() ==> page_nos[i] == g * 64 + 1 + i && listed[i] == hashes[g
                * 64 + i]
        },
{
}

/// The replica writes just the pages that came, and acknowledges just these.
pub proof fn law_sent_pages_are_written_and_acknowledged(
    page_count: u32,
    hashes: Seq<Seq<u8>>,
    need_fine: Seq<u32>,
    next: nat,
    target: u32,
    sent: Seq<(u32, Seq<u8>)>,
    i: int,
)
    requires
        next < need_fine.len(),
    ensures
        ({
            let (phase, step) = on_pages(
                page_count,
                hashes,
                need_fine,
                next,
                target,
                MessageView::SendPages { pages: sent },
            );
            &&& step matches StepView::Write { pages: written, reply }
            &&& written == sent
            &&& reply.len() == if next + 1 < need_fine.len() { 2int } else { 1int }
            &&& reply[0] matches MessageView::PagesAck { page_nos }
            &&& page_nos.len() == sent.len()
            &&& (0 <= i < sent.len() ==> page_nos[i] == sent[i].0)
            &&& (next + 1 < need_fine.len() ==> reply[1] == group_listing(
                hashes,
                need_fine[next as int + 1] as int,
            ) && phase == (ReplicaPhaseView::Pages { hashes, need_fine, next: next + 1, target }))
            &&& (next + 1 == need_fine.len() ==> phase == (ReplicaPhaseView::Done {
                after_fine: true,
                target,
            }))
        }),
{
}

/// At the end the replica gives up its pages beyond those of the origin, and where it
/// has none of these, nothing.
pub proof fn law_surplus_pages_are_given_up(page_count: u32, after_fine: bool, target: u32)
    ensures
        on_done(page_count, after_fine, target, MessageView::Done).0 is Over,
        page_count > target ==> on_done(page_count, after_fine, target, MessageView::Done).1 == (
        StepView::Cut { page_count: target }),
        page_count <= target ==> on_done(page_count, after_fine, target, MessageView::Done).1
            == StepView::Finish(Seq::empty()),
{
}

/// A message of another kind than those that the replica waits for ends the session
/// as a violation.
pub proof fn law_replica_refuses_other_messages(
    page_count: u32,
    phase: ReplicaPhaseView,
    msg: MessageView,
)
    requires
        match phase {
            ReplicaPhaseView::Ack => !(msg is HelloAck) && !(msg is Error),
            ReplicaPhaseView::NeedFine { .. } => !(msg is GroupsNeedFine),
            ReplicaPhaseView::Pages { .. } => !(msg is SendPages) && !(msg is Done),
            ReplicaPhaseView::Done { .. } => !(msg is Done),
            _ => false,
        },
    ensures
        replica_next(page_count, phase, msg).0 is Over,
        replica_next(page_count, phase, msg).1 is Violation,
{
}

/// The groups to inspect are listed from the first on; where there are none, the end
/// is waited for.
pub proof fn law_replica_lists_the_first_group(
    hashes: Seq<Seq<u8>>,
    target: u32,
    group_indices: Seq<u32>,
)
    ensures
        ({
            let (phase, step) = on_need_fine(
                hashes,
                target,
                MessageView::GroupsNeedFine { group_indices },
            );
            &&& group_indices.len() == 0 ==> phase == (ReplicaPhaseView::Done {
                after_fine: false,
                target,
            }) && step == StepView::Reply(Seq::empty())
            &&& group_indices.len() > 0 ==> phase == (ReplicaPhaseView::Pages {
                hashes,
                need_fine: group_indices,
                next: 0,
                target,
            }) && step == StepView::Reply(seq![group_listing(hashes, group_indices[0] as int)])
        }),
{
}

/// The origin may end the fine pass early; the replica then ends as after the last
/// group.
pub proof fn law_early_end_is_accepted(
    page_count: u32,
    hashes: Seq<Seq<u8>>,
    need_fine: Seq<u32>,
    next: nat,
    target: u32,
)
    ensures
        on_pages(page_count, hashes, need_fine, next, target, MessageView::Done) == on_done(
            page_count,
            true,
            target,
            MessageView::Done,
        ),
{
}

/// A replica can work on every message while it waits for one, but for groups whose
/// page numbers are out of reach.
pub proof fn law_replica_can_work_on_messages(phase: ReplicaPhaseView, msg: MessageView)
    ensures
        phase is Over || phase is Content ==> !workable(phase, msg),
        phase is Ack || phase is Pages || phase is Done ==> workable(phase, msg),
        phase is NeedFine && !(msg is GroupsNeedFine) ==> workable(phase, msg),
        phase is NeedFine ==> (msg matches MessageView::GroupsNeedFine { group_indices } ==> (
        workable(phase, msg) <==> forall|i: int|
            0 <= i < group_indices.len() ==> (#[trigger] group_indices[i]) < MAX_GROUP_COUNT)),
{
}

} // verus!
