//! Statuses of remote calls and the metadata that they carry.
use vstd::prelude::*;

use crate::proto;

verus! {

/// The code of the status of a call.
#[derive(Debug, Clone, Copy, PartialEq, Eq, Structural)]
pub enum Code {
    Cancelled,
    Unknown,
    InvalidArgument,
    DeadlineExceeded,
    NotFound,
    AlreadyExists,
    PermissionDenied,
    ResourceExhausted,
    FailedPrecondition,
    Aborted,
    OutOfRange,
    Unimplemented,
    Internal,
    Unavailable,
    DataLoss,
    Unauthenticated,
}

impl Code {
    /// The name of the code.
    pub open spec fn label(self) -> Seq<char> {
        match self {
            Code::Cancelled => "Cancelled"@,
            Code::Unknown => "Unknown"@,
            Code::InvalidArgument => "InvalidArgument"@,
            Code::DeadlineExceeded => "DeadlineExceeded"@,
            Code::NotFound => "NotFound"@,
            Code::AlreadyExists => "AlreadyExists"@,
            Code::PermissionDenied => "PermissionDenied"@,
            Code::ResourceExhausted => "ResourceExhausted"@,
            Code::FailedPrecondition => "FailedPrecondition"@,
            Code::Aborted => "Aborted"@,
            Code::OutOfRange => "OutOfRange"@,
            Code::Unimplemented => "Unimplemented"@,
            Code::Internal => "Internal"@,
            Code::Unavailable => "Unavailable"@,
            Code::DataLoss => "DataLoss"@,
            Code::Unauthenticated => "Unauthenticated"@,
        }
    }

    /// The name of the code.
    pub fn name(&self) -> (r: &'static str)
        ensures
            r@ == self.label(),
    {
        match self {
            Code::Cancelled => "Cancelled",
            Code::Unknown => "Unknown",
            Code::InvalidArgument => "InvalidArgument",
            Code::DeadlineExceeded => "DeadlineExceeded",
            Code::NotFound => "NotFound",
            Code::AlreadyExists => "AlreadyExists",
            Code::PermissionDenied => "PermissionDenied",
            Code::ResourceExhausted => "ResourceExhausted",
            Code::FailedPrecondition => "FailedPrecondition",
            Code::Aborted => "Aborted",
            Code::OutOfRange => "OutOfRange",
            Code::Unimplemented => "Unimplemented",
            Code::Internal => "Internal",
            Code::Unavailable => "Unavailable",
            Code::DataLoss => "DataLoss",
            Code::Unauthenticated => "Unauthenticated",
        }
    }
}

/// An entry of the metadata of a call.
#[derive(Debug, PartialEq, Eq)]
pub struct Header {
    pub name: String,
    pub value: Vec<u8>,
}

/// The status of a failed call.
#[derive(Debug, PartialEq, Eq)]
pub struct Status {
    pub code: Code,
    pub message: String,
    pub metadata: Vec<Header>,
}

/// An entry of the metadata of a call, as plain data.
#[verifier::ext_equal]
pub struct HeaderView {
    pub name: Seq<char>,
    pub value: Seq<u8>,
}

/// What the metadata of a call holds.
pub open spec fn header_views(metadata: Seq<Header>) -> Seq<HeaderView> {
    Seq::new(
        metadata.len(),
        |i: int| HeaderView { name: metadata[i].name@, value: metadata[i].value@ },
    )
}

/// The value of the first entry with this name.
pub open spec fn header_of(metadata: Seq<HeaderView>, name: Seq<char>) -> Option<Seq<u8>>
    decreases metadata.len(),
{
    if metadata.len() == 0 {
        None
    } else if metadata[0].name == name {
        Some(metadata[0].value)
    } else {
        header_of(metadata.skip(1), name)
    }
}

impl Status {
    /// Whether this status has exactly this code and message, and no metadata.
    pub open spec fn is_plain(self, code: Code, message: Seq<char>) -> bool {
        self.code == code && self.message@ == message && self.metadata@.len() == 0
    }

    /// What the metadata holds.
    pub open spec fn headers(self) -> Seq<HeaderView> {
        header_views(self.metadata@)
    }

    /// A status without metadata.
    pub fn new(code: Code, message: &str) -> (r: Status)
        ensures
            r.is_plain(code, message@),
    {
        Status { code, message: message.to_owned(), metadata: Vec::new() }
    }

    /// The value of the first metadata entry with this name.
    pub fn header(&self, name: &str) -> (r: Option<&Vec<u8>>)
        ensures
            match r {
                Some(v) => header_of(self.headers(), name@) == Some(v@),
                None => header_of(self.headers(), name@) is None,
            },
    {
        let wanted: String = name.to_owned();
        let mut i: usize = 0;
        assert(self.headers().skip(0) == self.headers());
        while i < self.metadata.len()
            invariant
                i <= self.metadata@.len(),
                wanted@ == name@,
                header_of(self.headers(), name@) == header_of(
                    self.headers().skip(i as int),
                    name@,
                ),
            decreases self.metadata@.len() - i,
        {
            assert(self.headers().skip(i as int)[0] == self.headers()[i as int]);
            assert(self.headers().skip(i as int).skip(1) == self.headers().skip(i + 1));
            if self.metadata[i].name == wanted {
                return Some(&self.metadata[i].value);
            }
            i = i + 1;
        }
        None
    }
}

// ---------------------------------------------------------------------------
// Metadata values
// ---------------------------------------------------------------------------

/// Bytes that a metadata value may hold: no control characters but the tab.
pub open spec fn value_byte(b: u8) -> bool {
    (b >= 32 && b != 127) || b == 9
}

/// Bytes of which a metadata value can be read as text: visible ASCII and the
/// tab.
pub open spec fn visible_byte(b: u8) -> bool {
    32 <= b < 127 || b == 9
}

/// Whether all bytes may stand in a metadata value.
pub open spec fn sendable(bytes: Seq<u8>) -> bool {
    forall|i: int| 0 <= i < bytes.len() ==> value_byte(#[trigger] bytes[i])
}

/// Whether all bytes are visible ASCII or tabs.
pub open spec fn visible(bytes: Seq<u8>) -> bool {
    forall|i: int| 0 <= i < bytes.len() ==> visible_byte(#[trigger] bytes[i])
}

/// ASCII bytes as text.
pub open spec fn ascii_text(bytes: Seq<u8>) -> Seq<char> {
    Seq::new(bytes.len(), |i: int| bytes[i] as char)
}

/// `tonic::metadata::MetadataValue::<Ascii>::from_str`: the bytes of a text as a
/// metadata value, for a text in UTF-8 without control characters other than the
/// tab; nothing for any other text.
#[verifier::external_body]
pub(crate) fn metadata_value(text: &str) -> (r: Option<Vec<u8>>)
    ensures
        r is Some <==> sendable(vstd::utf8::encode_utf8(text@)),
        r is Some ==> r->0@ == vstd::utf8::encode_utf8(text@),
{
    text.parse::<tonic::metadata::MetadataValue<tonic::metadata::Ascii>>().ok().map(
        |value| value.as_bytes().to_vec(),
    )
}

/// `tonic::metadata::MetadataValue::<Ascii>::to_str` on the value of these bytes:
/// the text of a metadata value of visible ASCII and tabs; nothing for any other
/// bytes.
#[verifier::external_body]
pub(crate) fn metadata_text(bytes: &[u8]) -> (r: Option<String>)
    ensures
        r is Some <==> visible(bytes@),
        r is Some ==> r->0@ == ascii_text(bytes@),
{
    tonic::metadata::MetadataValue::<tonic::metadata::Ascii>::try_from(bytes).ok().and_then(
        |value| value.to_str().ok().map(String::from),
    )
}

/// Text of visible ASCII and tabs.
pub open spec fn visible_text(s: Seq<char>) -> bool {
    forall|i: int|
        0 <= i < s.len() ==> (' ' <= #[trigger] s[i] && s[i] <= '~') || s[i] == '\t'
}

/// Visible text can be sent as a metadata value and is read back unchanged.
pub proof fn law_visible_text_survives(s: Seq<char>)
    requires
        visible_text(s),
    ensures
        sendable(vstd::utf8::encode_utf8(s)),
        visible(vstd::utf8::encode_utf8(s)),
        ascii_text(vstd::utf8::encode_utf8(s)) == s,
{
    let bytes = vstd::utf8::encode_utf8(s);
    assert(vstd::utf8::is_ascii_chars(s));
    vstd::utf8::is_ascii_chars_encode_utf8(s);
    assert forall|i: int| 0 <= i < bytes.len() implies visible_byte(#[trigger] bytes[i])
        && bytes[i] as char == s[i] by {
        let c = s[i];
        assert(c as u8 == bytes[i]);
    }
    assert(ascii_text(bytes) =~= s);
}

/// Texts with the same bytes are the same.
pub proof fn lemma_bytes_determine_text(a: Seq<char>, b: Seq<char>)
    requires
        vstd::utf8::encode_utf8(a) == vstd::utf8::encode_utf8(b),
    ensures
        a == b,
{
    vstd::utf8::encode_utf8_decode_utf8(a);
    vstd::utf8::encode_utf8_decode_utf8(b);
}

/// Whether two byte strings are equal, found out without a branch on where they
/// first differ.
pub fn constant_time_eq(a: &[u8], b: &[u8]) -> (r: bool)
    ensures
        r == (a@ == b@),
{
    if a.len() != b.len() {
        return false;
    }
    let n: usize = a.len();
    let mut acc: u8 = 0;
    let mut i: usize = 0;
    assert(a@.take(0) == b@.take(0));
    while i < n
        invariant
            i <= n,
            n == a@.len(),
            n == b@.len(),
            acc == 0 <==> a@.take(i as int) == b@.take(i as int),
        decreases n - i,
    {
        let x: u8 = a[i];
        let y: u8 = b[i];
        let ghost before = acc;
        acc = acc | (x ^ y);
        assert((before | (x ^ y)) == 0 <==> before == 0 && x == y) by (bit_vector);
        assert(a@.take(i + 1) == a@.take(i as int).push(x));
        assert(b@.take(i + 1) == b@.take(i as int).push(y));
        proof {
            if a@.take(i + 1) == b@.take(i + 1) {
                assert(a@.take(i + 1).drop_last() == a@.take(i as int));
                assert(b@.take(i + 1).drop_last() == b@.take(i as int));
                assert(a@.take(i + 1).last() == x);
                assert(b@.take(i + 1).last() == y);
            }
        }
        i = i + 1;
    }
    assert(a@.take(n as int) == a@);
    assert(b@.take(n as int) == b@);
    acc == 0
}

// ---------------------------------------------------------------------------
// Not the leader
// ---------------------------------------------------------------------------

/// Whether a status says that the node that was called is not the writer.
pub open spec fn says_not_leader(status: Status) -> bool {
    status.code == Code::FailedPrecondition && header_of(
        status.headers(),
        proto::HEADER_RSQLITE_CODE@,
    ) == Some(vstd::utf8::encode_utf8(proto::CODE_NOT_LEADER@))
}

/// Whether a status says that the node that was called is not the writer.
pub fn is_not_leader_status(status: &Status) -> (r: bool)
    ensures
        r == says_not_leader(*status),
{
    if status.code != Code::FailedPrecondition {
        return false;
    }
    match status.header(proto::HEADER_RSQLITE_CODE) {
        None => false,
        Some(value) => constant_time_eq(value.as_slice(), proto::CODE_NOT_LEADER.as_bytes()),
    }
}

/// The value of a name is that of its first entry; there is none exactly where no
/// entry has the name.
pub proof fn law_first_entry_with_the_name_counts(
    before: Seq<HeaderView>,
    entry: HeaderView,
    after: Seq<HeaderView>,
)
    requires
        forall|i: int| 0 <= i < before.len() ==> (#[trigger] before[i]).name != entry.name,
    ensures
        header_of(before + seq![entry] + after, entry.name) == Some(entry.value),
        header_of(before, entry.name) is None,
    decreases before.len(),
{
    let all = before + seq![entry] + after;
    if before.len() == 0 {
        assert(all[0] == entry);
    } else {
        let rest = before.skip(1);
        assert forall|i: int| 0 <= i < rest.len() implies (#[trigger] rest[i]).name
            != entry.name by {
            assert(rest[i] == before[i + 1]);
        }
        law_first_entry_with_the_name_counts(rest, entry, after);
        assert(all[0] == before[0]);
        assert(all.skip(1) =~= rest + seq![entry] + after);
    }
}

/// A metadata value may hold any byte but the control characters; the tab is none of
/// these.
pub proof fn law_values_hold_no_control_characters(b: u8)
    ensures
        value_byte(b) <==> !(b < 32 && b != 9) && b != 127,
        visible_byte(b) <==> value_byte(b) && b < 128,
{
}

/// Bytes that can be read as text can be sent as well.
pub proof fn law_visible_values_can_be_sent(bytes: Seq<u8>)
    requires
        visible(bytes),
    ensures
        sendable(bytes),
{
}

/// A text with a line feed or another control character but the tab cannot be sent.
pub proof fn law_control_characters_are_not_sent(bytes: Seq<u8>, i: int)
    requires
        0 <= i < bytes.len(),
        bytes[i] == 127 || (bytes[i] < 32 && bytes[i] != 9),
    ensures
        !sendable(bytes),
        !visible(bytes),
{
    assert(!value_byte(bytes[i]));
    assert(!visible_byte(bytes[i]));
}

/// A node is taken not to be the writer exactly if it refuses the state of things with
/// the code that says so.
pub proof fn law_not_leader_is_told_by_its_code(status: Status)
    ensures
        status.code != Code::FailedPrecondition ==> !says_not_leader(status),
        status.metadata@.len() == 0 ==> !says_not_leader(status),
        says_not_leader(status) ==> header_of(status.headers(), "x-rsqlite-code"@) == Some(
            vstd::utf8::encode_utf8("NOT_LEADER"@),
        ),
{
    if status.metadata@.len() == 0 {
        assert(status.headers().len() == 0);
    }
}

/// Each code is known by its own name.
pub proof fn law_codes_have_their_names()
    ensures
        Code::Cancelled.label() == "Cancelled"@,
        Code::Unknown.label() == "Unknown"@,
        Code::InvalidArgument.label() == "InvalidArgument"@,
        Code::DeadlineExceeded.label() == "DeadlineExceeded"@,
        Code::NotFound.label() == "NotFound"@,
        Code::AlreadyExists.label() == "AlreadyExists"@,
        Code::PermissionDenied.label() == "PermissionDenied"@,
        Code::ResourceExhausted.label() == "ResourceExhausted"@,
        Code::FailedPrecondition.label() == "FailedPrecondition"@,
        Code::Aborted.label() == "Aborted"@,
        Code::OutOfRange.label() == "OutOfRange"@,
        Code::Unimplemented.label() == "Unimplemented"@,
        Code::Internal.label() == "Internal"@,
        Code::Unavailable.label() == "Unavailable"@,
        Code::DataLoss.label() == "DataLoss"@,
        Code::Unauthenticated.label() == "Unauthenticated"@,
{
}

/// A plain status has its code and its message and no metadata, so that it never says
/// that a node is not the writer.
pub proof fn law_plain_status_is_no_redirect(status: Status, code: Code, message: Seq<char>)
    requires
        status.is_plain(code, message),
    ensures
        status.code == code,
        status.message@ == message,
        status.headers().len() == 0,
        !says_not_leader(status),
{
    assert(status.headers().len() == 0);
}

} // verus!
