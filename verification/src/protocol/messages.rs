//! Protocol message types and the framing of their wire form.
//!
//! Messages are length-prefixed on the wire: four bytes hold the number of
//! payload bytes that follow, least significant byte first.
use vstd::prelude::*;

use crate::error::{Result, SyncError};
use crate::hash;
use crate::hash::PageHash;
use crate::text;

verus! {

/// Protocol version spoken by this build.
pub const PROTOCOL_VERSION: u32 = 2;

/// Hard upper bound for a single framed protocol message.
pub const MAX_MESSAGE_SIZE: usize = 256 * 1024 * 1024;

/// Every message that can travel over the wire in either direction.
#[derive(Debug, Clone, PartialEq)]
pub enum Message {
    /// Sent by the replica immediately after connecting.
    Hello {
        /// Protocol version offered by the replica.
        version: u32,
        /// Page size of the replica database (bytes).
        page_size: u32,
        /// Number of pages currently in the replica.
        page_count: u32,
    },
    /// Sent by the origin in response to [`Message::Hello`].
    HelloAck {
        /// Negotiated protocol version, at most the offered one.
        version: u32,
        /// Page size of the origin database.
        page_size: u32,
        /// Total pages in the origin database at the start of this session.
        page_count: u32,
    },
    /// Replica to origin: group hashes for a contiguous range of page groups.
    GroupHashes {
        /// Index of the first group in this batch.
        first_group: u32,
        /// One hash per page group.
        hashes: Vec<PageHash>,
    },
    /// Origin to replica: which groups need fine-grained inspection.
    GroupsNeedFine {
        /// 0-based group indices that did not match.
        group_indices: Vec<u32>,
    },
    /// Replica to origin: per-page hashes for pages inside a specific group.
    PageHashes {
        /// 1-based page numbers.
        page_nos: Vec<u32>,
        /// Hash for each page number listed in `page_nos`.
        hashes: Vec<PageHash>,
    },
    /// Origin to replica: deliver these pages (origin found them different).
    SendPages {
        /// Pages to write.
        pages: Vec<PageData>,
    },
    /// Replica to origin: page writes confirmed; ready for next batch.
    PagesAck {
        /// 1-based page numbers that were successfully written.
        page_nos: Vec<u32>,
    },
    /// Origin to replica: sync complete, no more pages to send.
    Done,
    /// Either side: unrecoverable error, abort with explanation.
    Error { message: String },
}

/// A single database page's content as exchanged during the fine pass.
#[derive(Debug, Clone, PartialEq)]
pub struct PageData {
    /// 1-based page number.
    pub page_no: u32,
    /// Raw page bytes (exactly `page_size` bytes).
    pub data: Vec<u8>,
}

/// The content of a [`Message`].
#[verifier::ext_equal]
pub enum MessageView {
    Hello { version: u32, page_size: u32, page_count: u32 },
    HelloAck { version: u32, page_size: u32, page_count: u32 },
    GroupHashes { first_group: u32, hashes: Seq<Seq<u8>> },
    GroupsNeedFine { group_indices: Seq<u32> },
    PageHashes { page_nos: Seq<u32>, hashes: Seq<Seq<u8>> },
    SendPages { pages: Seq<(u32, Seq<u8>)> },
    PagesAck { page_nos: Seq<u32> },
    Done,
    Error { message: Seq<char> },
}

impl View for PageData {
    type V = (u32, Seq<u8>);

    open spec fn view(&self) -> (u32, Seq<u8>) {
        (self.page_no, self.data@)
    }
}

/// The content of each page of a list.
pub open spec fn page_views(pages: Seq<PageData>) -> Seq<(u32, Seq<u8>)> {
    Seq::new(pages.len(), |i: int| pages[i]@)
}

/// The content of each message of a list.
pub open spec fn message_views(messages: Seq<Message>) -> Seq<MessageView> {
    Seq::new(messages.len(), |i: int| messages[i]@)
}

impl View for Message {
    type V = MessageView;

    open spec fn view(&self) -> MessageView {
        match *self {
            Message::Hello { version, page_size, page_count } => MessageView::Hello {
                version,
                page_size,
                page_count,
            },
            Message::HelloAck { version, page_size, page_count } => MessageView::HelloAck {
                version,
                page_size,
                page_count,
            },
            Message::GroupHashes { first_group, hashes } => MessageView::GroupHashes {
                first_group,
                hashes: hash::hash_views(hashes@),
            },
            Message::GroupsNeedFine { group_indices } => MessageView::GroupsNeedFine {
                group_indices: group_indices@,
            },
            Message::PageHashes { page_nos, hashes } => MessageView::PageHashes {
                page_nos: page_nos@,
                hashes: hash::hash_views(hashes@),
            },
            Message::SendPages { pages } => MessageView::SendPages { pages: page_views(pages@) },
            Message::PagesAck { page_nos } => MessageView::PagesAck { page_nos: page_nos@ },
            Message::Done => MessageView::Done,
            Message::Error { message } => MessageView::Error { message: message@ },
        }
    }
}

// ---------------------------------------------------------------------------
// Debug text
// ---------------------------------------------------------------------------

/// The debug text of the three numbers of a handshake message.
pub open spec fn handshake_fields(version: u32, page_size: u32, page_count: u32) -> Seq<char> {
    " { version: "@ + text::decimal(version as nat) + ", page_size: "@ + text::decimal(
        page_size as nat,
    ) + ", page_count: "@ + text::decimal(page_count as nat) + " }"@
}

/// The debug texts of the hashes of a list.
pub open spec fn hash_items(hashes: Seq<Seq<u8>>) -> Seq<Seq<char>> {
    Seq::new(
        hashes.len(),
        |i: int| "["@ + text::comma_list(text::byte_items(hashes[i])) + "]"@,
    )
}

/// The debug text of one page.
pub open spec fn page_text(page: (u32, Seq<u8>)) -> Seq<char> {
    "PageData { page_no: "@ + text::decimal(page.0 as nat) + ", data: ["@ + text::comma_list(
        text::byte_items(page.1),
    ) + "] }"@
}

/// The debug texts of the pages of a list.
pub open spec fn page_items(pages: Seq<(u32, Seq<u8>)>) -> Seq<Seq<char>> {
    Seq::new(pages.len(), |i: int| page_text(pages[i]))
}

impl MessageView {
    /// The debug text of a message.
    pub open spec fn debug_text(self) -> Seq<char> {
        match self {
            MessageView::Hello { version, page_size, page_count } => "Hello"@ + handshake_fields(
                version,
                page_size,
                page_count,
            ),
            MessageView::HelloAck { version, page_size, page_count } => "HelloAck"@
                + handshake_fields(version, page_size, page_count),
            MessageView::GroupHashes { first_group, hashes } => "GroupHashes { first_group: "@
                + text::decimal(first_group as nat) + ", hashes: ["@ + text::comma_list(
                hash_items(hashes),
            ) + "] }"@,
            MessageView::GroupsNeedFine { group_indices } =>
                "GroupsNeedFine { group_indices: ["@ + text::comma_list(
                text::number_items(group_indices),
            ) + "] }"@,
            MessageView::PageHashes { page_nos, hashes } => "PageHashes { page_nos: ["@
                + text::comma_list(text::number_items(page_nos)) + "], hashes: ["@
                + text::comma_list(hash_items(hashes)) + "] }"@,
            MessageView::SendPages { pages } => "SendPages { pages: ["@ + text::comma_list(
                page_items(pages),
            ) + "] }"@,
            MessageView::PagesAck { page_nos } => "PagesAck { page_nos: ["@ + text::comma_list(
                text::number_items(page_nos),
            ) + "] }"@,
            MessageView::Done => "Done"@,
            MessageView::Error { message } => "Error { message: "@ + text::quoted(message) + " }"@,
        }
    }
}

fn handshake_text(name: &str, version: u32, page_size: u32, page_count: u32) -> (r: String)
    ensures
        r@ == name@ + handshake_fields(version, page_size, page_count),
{
    let mut s: String = name.to_owned();
    s.append(" { version: ");
    s.append(text::u64_text(version as u64).as_str());
    s.append(", page_size: ");
    s.append(text::u64_text(page_size as u64).as_str());
    s.append(", page_count: ");
    s.append(text::u64_text(page_count as u64).as_str());
    s.append(" }");
    assert(s@ == name@ + handshake_fields(version, page_size, page_count));
    s
}

fn hash_list(hashes: &Vec<PageHash>) -> (r: String)
    ensures
        r@ == text::comma_list(hash_items(hash::hash_views(hashes@))),
{
    let mut s: String = String::new();
    let mut i: usize = 0;
    let ghost all = hash_items(hash::hash_views(hashes@));
    assert(all.take(0) == Seq::<Seq<char>>::empty());
    while i < hashes.len()
        invariant
            i <= hashes@.len(),
            all == hash_items(hash::hash_views(hashes@)),
            s@ == text::comma_list(all.take(i as int)),
        decreases hashes@.len() - i,
    {
        proof {
            assert(all.take(i + 1) == all.take(i as int).push(all[i as int]));
            text::lemma_comma_list_push(all.take(i as int), all[i as int]);
        }
        let mut item: String = "[".to_owned();
        item.append(text::byte_list(hashes[i].as_slice()).as_str());
        item.append("]");
        assert(item@ == all[i as int]);
        text::append_item(&mut s, i, item.as_str());
        i = i + 1;
    }
    assert(all.take(i as int) == all);
    s
}

fn page_list(pages: &Vec<PageData>) -> (r: String)
    ensures
        r@ == text::comma_list(page_items(page_views(pages@))),
{
    let mut s: String = String::new();
    let mut i: usize = 0;
    let ghost all = page_items(page_views(pages@));
    assert(all.take(0) == Seq::<Seq<char>>::empty());
    while i < pages.len()
        invariant
            i <= pages@.len(),
            all == page_items(page_views(pages@)),
            s@ == text::comma_list(all.take(i as int)),
        decreases pages@.len() - i,
    {
        proof {
            assert(all.take(i + 1) == all.take(i as int).push(all[i as int]));
            text::lemma_comma_list_push(all.take(i as int), all[i as int]);
        }
        let mut item: String = "PageData { page_no: ".to_owned();
        item.append(text::u64_text(pages[i].page_no as u64).as_str());
        item.append(", data: [");
        item.append(text::byte_list(pages[i].data.as_slice()).as_str());
        item.append("] }");
        assert(item@ == all[i as int]);
        text::append_item(&mut s, i, item.as_str());
        i = i + 1;
    }
    assert(all.take(i as int) == all);
    s
}

impl Message {
    /// The debug text of this message.
    pub fn debug_text(&self) -> (r: String)
        ensures
            r@ == self@.debug_text(),
    {
        match self {
            Message::Hello { version, page_size, page_count } => handshake_text(
                "Hello",
                *version,
                *page_size,
                *page_count,
            ),
            Message::HelloAck { version, page_size, page_count } => handshake_text(
                "HelloAck",
                *version,
                *page_size,
                *page_count,
            ),
            Message::GroupHashes { first_group, hashes } => {
                let mut s: String = "GroupHashes { first_group: ".to_owned();
                s.append(text::u64_text(*first_group as u64).as_str());
                s.append(", hashes: [");
                s.append(hash_list(hashes).as_str());
                s.append("] }");
                s
            },
            Message::GroupsNeedFine { group_indices } => {
                let mut s: String = "GroupsNeedFine { group_indices: [".to_owned();
                s.append(text::number_list(group_indices).as_str());
                s.append("] }");
                s
            },
            Message::PageHashes { page_nos, hashes } => {
                let mut s: String = "PageHashes { page_nos: [".to_owned();
                s.append(text::number_list(page_nos).as_str());
                s.append("], hashes: [");
                s.append(hash_list(hashes).as_str());
                s.append("] }");
                s
            },
            Message::SendPages { pages } => {
                let mut s: String = "SendPages { pages: [".to_owned();
                s.append(page_list(pages).as_str());
                s.append("] }");
                s
            },
            Message::PagesAck { page_nos } => {
                let mut s: String = "PagesAck { page_nos: [".to_owned();
                s.append(text::number_list(page_nos).as_str());
                s.append("] }");
                s
            },
            Message::Done => "Done".to_owned(),
            Message::Error { message } => {
                let mut s: String = "Error { message: ".to_owned();
                s.append(text::quote(message.as_str()).as_str());
                s.append(" }");
                s
            },
        }
    }
}

// ---------------------------------------------------------------------------
// Framing
// ---------------------------------------------------------------------------

/// The four bytes of `n`, least significant first.
pub open spec fn le_bytes(n: nat) -> Seq<u8> {
    seq![
        (n % 256) as u8,
        (n / 256 % 256) as u8,
        (n / 65536 % 256) as u8,
        (n / 16777216 % 256) as u8,
    ]
}

/// The number that four bytes hold, least significant first.
pub open spec fn le_value(b: Seq<u8>) -> nat {
    (b[0] + b[1] * 256 + b[2] * 65536 + b[3] * 16777216) as nat
}

/// The frame of a payload: its length in four bytes, then the payload.
pub open spec fn framed(payload: Seq<u8>) -> Seq<u8> {
    le_bytes((payload.len() % 0x1_0000_0000) as nat) + payload
}

/// The payload of the frame that `buf` starts with and the length of that
/// frame, or why there is none.
pub open spec fn unframed(buf: Seq<u8>) -> core::result::Result<(Seq<u8>, nat), Seq<char>> {
    if buf.len() < 4 {
        Err("buffer too short for length prefix"@)
    } else {
        let len = le_value(buf);
        if len > MAX_MESSAGE_SIZE {
            Err(
                "message frame exceeds max size: "@ + text::decimal(len) + " > "@ + text::decimal(
                    MAX_MESSAGE_SIZE as nat,
                ),
            )
        } else if buf.len() < 4 + len {
            Err(
                "buffer has "@ + text::decimal((buf.len() - 4) as nat) + " bytes but expected "@
                    + text::decimal(len) + " payload bytes"@,
            )
        } else {
            Ok((buf.subrange(4, 4 + len as int), 4 + len))
        }
    }
}

/// Frame an encoded message: a length prefix followed by the payload.
pub fn encode(payload: &[u8]) -> (r: Vec<u8>)
    ensures
        r@ == framed(payload@),
{
    let n: u64 = payload.len() as u64 % 0x1_0000_0000;
    let mut buf: Vec<u8> = Vec::new();
    buf.push((n % 256) as u8);
    buf.push((n / 256 % 256) as u8);
    buf.push((n / 65536 % 256) as u8);
    buf.push((n / 16777216 % 256) as u8);
    assert(buf@ == le_bytes((payload@.len() % 0x1_0000_0000) as nat));
    buf.extend_from_slice(payload);
    buf
}

/// The length of the frame that begins with `prefix`.
///
/// # Errors
///
/// Returns [`SyncError::Codec`] if the length prefix is truncated or stands for
/// more than [`MAX_MESSAGE_SIZE`].
pub fn frame_len(prefix: &[u8]) -> (r: Result<usize>)
    ensures
        match r {
            Ok(len) => prefix@.len() >= 4 && le_value(prefix@) <= MAX_MESSAGE_SIZE && len == 4
                + le_value(prefix@),
            Err(e) => (prefix@.len() < 4 || le_value(prefix@) > MAX_MESSAGE_SIZE) && e.is_codec(
                unframed(prefix@)->Err_0,
            ),
        },
{
    if prefix.len() < 4 {
        return Err(SyncError::Codec("buffer too short for length prefix".to_owned()));
    }
    let len: usize = prefix[0] as usize + prefix[1] as usize * 256 + prefix[2] as usize * 65536
        + prefix[3] as usize * 16777216;
    if len > MAX_MESSAGE_SIZE {
        let mut m: String = "message frame exceeds max size: ".to_owned();
        m.append(text::u64_text(len as u64).as_str());
        m.append(" > ");
        m.append(text::u64_text(MAX_MESSAGE_SIZE as u64).as_str());
        return Err(SyncError::Codec(m));
    }
    Ok(4 + len)
}

/// Take the payload out of the frame that `buf` starts with.
///
/// Returns the payload and the number of bytes consumed.
///
/// # Errors
///
/// Returns [`SyncError::Codec`] if the length prefix or the payload is
/// truncated, or if the length is over [`MAX_MESSAGE_SIZE`].
pub fn decode(buf: &[u8]) -> (r: Result<(Vec<u8>, usize)>)
    ensures
        match r {
            Ok((payload, used)) => unframed(buf@) == Ok::<(Seq<u8>, nat), Seq<char>>(
                (payload@, used as nat),
            ),
            Err(e) => unframed(buf@) is Err && e.is_codec(unframed(buf@)->Err_0),
        },
{
    let frame: usize = match frame_len(buf) {
        Ok(n) => n,
        Err(e) => {
            return Err(e);
        },
    };
    let len: usize = frame - 4;
    if buf.len() - 4 < len {
        let mut m: String = "buffer has ".to_owned();
        m.append(text::u64_text((buf.len() - 4) as u64).as_str());
        m.append(" bytes but expected ");
        m.append(text::u64_text(len as u64).as_str());
        m.append(" payload bytes");
        return Err(SyncError::Codec(m));
    }
    let payload: Vec<u8> = vstd::slice::slice_to_vec(vstd::slice::slice_subrange(buf, 4, 4 + len));
    Ok((payload, 4 + len))
}

/// Reading gives back what was written: a framed payload of admissible size,
/// whatever bytes follow it, decodes to that payload and its frame's length.
pub proof fn law_decode_inverts_encode(payload: Seq<u8>, rest: Seq<u8>)
    requires
        payload.len() <= MAX_MESSAGE_SIZE,
    ensures
        unframed(framed(payload) + rest) == Ok::<(Seq<u8>, nat), Seq<char>>(
            (payload, framed(payload).len()),
        ),
{
    let buf = framed(payload) + rest;
    let n = payload.len();
    assert(le_value(buf) == n);
    assert(buf.subrange(4, 4 + n as int) == payload);
}

/// A frame is the payload behind its length, of which the first byte counts ones, the
/// next 256s, and so on.
pub proof fn law_frame_starts_with_its_length(payload: Seq<u8>)
    requires
        payload.len() <= u32::MAX,
    ensures
        ({
            let f = framed(payload);
            &&& f.len() == 4 + payload.len()
            &&& f[0] + 256 * f[1] + 256 * 256 * f[2] + 256 * 256 * 256 * f[3] == payload.len()
            &&& f.skip(4) == payload
        }),
{
    let n = payload.len();
    let f = framed(payload);
    assert(n % 0x1_0000_0000 == n);
    assert(f.skip(4) =~= payload);
    assert(n == n % 256 + 256 * (n / 256 % 256) + 65536 * (n / 65536 % 256) + 16777216 * (n
        / 16777216 % 256)) by (nonlinear_arith)
        requires
            0 <= n <= 0xffff_ffff,
    ;
}

/// A frame is taken out exactly if its length is there, is admissible, and is followed
/// by as many bytes; what follows the frame does not matter.
pub proof fn law_frame_is_taken_out_when_whole(buf: Seq<u8>)
    ensures
        ({
            let len = buf[0] + 256 * buf[1] + 256 * 256 * buf[2] + 256 * 256 * 256 * buf[3];
            match unframed(buf) {
                Ok((payload, used)) => buf.len() >= 4 && len <= 268435456 && buf.len() >= 4 + len
                    && used == 4 + len && payload == buf.subrange(4, 4 + len),
                Err(_) => buf.len() < 4 || len > 268435456 || buf.len() < 4 + len,
            }
        }),
{
    let len = buf[0] + 256 * buf[1] + 256 * 256 * buf[2] + 256 * 256 * 256 * buf[3];
    let (b0, b1, b2, b3): (u8, u8, u8, u8) = (buf[0], buf[1], buf[2], buf[3]);
    assert(b0 + b1 * 256 + b2 * 65536 + b3 * 16777216 == b0 + 256 * b1 + 256 * 256 * b2 + 256 * 256
        * 256 * b3) by (nonlinear_arith);
    assert(b0 + b1 * 256 + b2 * 65536 + b3 * 16777216 >= 0) by (nonlinear_arith);
    assert(le_value(buf) == len);
    assert(MAX_MESSAGE_SIZE == 268435456) by (nonlinear_arith);
}

/// The debug text of a message starts with its name.
pub proof fn law_debug_text_names_the_message(msg: MessageView)
    ensures
        match msg {
            MessageView::Hello { .. } => "Hello {"@.is_prefix_of(msg.debug_text()),
            MessageView::HelloAck { .. } => "HelloAck {"@.is_prefix_of(msg.debug_text()),
            MessageView::GroupHashes { .. } => "GroupHashes {"@.is_prefix_of(msg.debug_text()),
            MessageView::GroupsNeedFine { .. } => "GroupsNeedFine {"@.is_prefix_of(
                msg.debug_text(),
            ),
            MessageView::PageHashes { .. } => "PageHashes {"@.is_prefix_of(msg.debug_text()),
            MessageView::SendPages { .. } => "SendPages {"@.is_prefix_of(msg.debug_text()),
            MessageView::PagesAck { .. } => "PagesAck {"@.is_prefix_of(msg.debug_text()),
            MessageView::Done => msg.debug_text() == "Done"@,
            MessageView::Error { message } => msg.debug_text() == "Error { message: "@
                + text::quoted(message) + " }"@,
        },
{
    reveal_strlit("Hello {");
    reveal_strlit("HelloAck {");
    reveal_strlit("GroupHashes {");
    reveal_strlit("GroupsNeedFine {");
    reveal_strlit("PageHashes {");
    reveal_strlit("SendPages {");
    reveal_strlit("PagesAck {");
    reveal_strlit("Hello");
    reveal_strlit("HelloAck");
    reveal_strlit(" { version: ");
    reveal_strlit("GroupHashes { first_group: ");
    reveal_strlit("GroupsNeedFine { group_indices: [");
    reveal_strlit("PageHashes { page_nos: [");
    reveal_strlit("SendPages { pages: [");
    reveal_strlit("PagesAck { page_nos: [");
}

/// The debug text of a message shows all that it holds.
pub proof fn law_debug_text_shows_the_content(
    version: u32,
    page_size: u32,
    page_count: u32,
    numbers: Seq<u32>,
    hashes: Seq<Seq<u8>>,
    page: (u32, Seq<u8>),
)
    ensures
        (MessageView::Hello { version, page_size, page_count }).debug_text() == "Hello"@
            + (" { version: "@ + text::decimal(version as nat) + ", page_size: "@ + text::decimal(
            page_size as nat,
        ) + ", page_count: "@ + text::decimal(page_count as nat) + " }"@),
        (MessageView::HelloAck { version, page_size, page_count }).debug_text() == "HelloAck"@
            + (" { version: "@ + text::decimal(version as nat) + ", page_size: "@ + text::decimal(
            page_size as nat,
        ) + ", page_count: "@ + text::decimal(page_count as nat) + " }"@),
        (MessageView::PagesAck { page_nos: numbers }).debug_text() == "PagesAck { page_nos: ["@
            + text::comma_list(text::number_items(numbers)) + "] }"@,
        (MessageView::GroupsNeedFine { group_indices: numbers }).debug_text()
            == "GroupsNeedFine { group_indices: ["@ + text::comma_list(text::number_items(numbers))
            + "] }"@,
        (MessageView::PageHashes { page_nos: numbers, hashes }).debug_text()
            == "PageHashes { page_nos: ["@ + text::comma_list(text::number_items(numbers))
            + "], hashes: ["@ + text::comma_list(hash_items(hashes)) + "] }"@,
        (MessageView::GroupHashes { first_group: version, hashes }).debug_text()
            == "GroupHashes { first_group: "@ + text::decimal(version as nat) + ", hashes: ["@
            + text::comma_list(hash_items(hashes)) + "] }"@,
        (MessageView::SendPages { pages: seq![page] }).debug_text()
            == "SendPages { pages: [PageData { page_no: "@ + text::decimal(page.0 as nat)
            + ", data: ["@ + text::comma_list(text::byte_items(page.1)) + "] }] }"@,
        hash_items(hashes).len() == hashes.len(),
        forall|i: int|
            0 <= i < hashes.len() ==> #[trigger] hash_items(hashes)[i] == "["@ + text::comma_list(
                text::byte_items(hashes[i]),
            ) + "]"@,
{
    let one = seq![page];
    reveal_strlit("SendPages { pages: [");
    reveal_strlit("PageData { page_no: ");
    reveal_strlit("SendPages { pages: [PageData { page_no: ");
    reveal_strlit("] }");
    reveal_strlit("] }] }");
    assert("SendPages { pages: ["@ + "PageData { page_no: "@
        =~= "SendPages { pages: [PageData { page_no: "@);
    assert("] }"@ + "] }"@ =~= "] }] }"@);
    assert(page_items(one) =~= seq![page_text(page)]);
    text::law_list_has_its_items_in_order(page_text(page), Seq::empty());
    let d = text::decimal(page.0 as nat);
    let l = text::comma_list(text::byte_items(page.1));
    assert((MessageView::SendPages { pages: one }).debug_text() =~= ("SendPages { pages: ["@
        + "PageData { page_no: "@) + d + ", data: ["@ + l + ("] }"@ + "] }"@));
}

/// What a message holds is what its fields hold.
pub proof fn law_messages_hold_their_fields(
    version: u32,
    page_size: u32,
    page_count: u32,
    numbers: Vec<u32>,
    hashes: Vec<PageHash>,
    pages: Vec<PageData>,
    message: String,
    i: int,
)
    ensures
        (Message::Hello { version, page_size, page_count })@ == (MessageView::Hello {
            version,
            page_size,
            page_count,
        }),
        (Message::HelloAck { version, page_size, page_count })@ == (MessageView::HelloAck {
            version,
            page_size,
            page_count,
        }),
        (Message::GroupsNeedFine { group_indices: numbers })@ == (MessageView::GroupsNeedFine {
            group_indices: numbers@,
        }),
        (Message::PagesAck { page_nos: numbers })@ == (MessageView::PagesAck {
            page_nos: numbers@,
        }),
        (Message::GroupHashes { first_group: version, hashes })@ == (MessageView::GroupHashes {
            first_group: version,
            hashes: hash::hash_views(hashes@),
        }),
        (Message::PageHashes { page_nos: numbers, hashes })@ == (MessageView::PageHashes {
            page_nos: numbers@,
            hashes: hash::hash_views(hashes@),
        }),
        (Message::SendPages { pages })@ == (MessageView::SendPages { pages: page_views(pages@) }),
        Message::Done@ == MessageView::Done,
        (Message::Error { message })@ == (MessageView::Error { message: message@ }),
        page_views(pages@).len() == pages@.len(),
        0 <= i < pages@.len() ==> page_views(pages@)[i] == (pages@[i].page_no, pages@[i].data@),
        hash::hash_views(hashes@).len() == hashes@.len(),
        0 <= i < hashes@.len() ==> hash::hash_views(hashes@)[i] == hashes@[i]@,
{
}

} // verus!
