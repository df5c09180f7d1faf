//! Unified error type of the crate.
use vstd::prelude::*;

use crate::text;

verus! {

/// Every error that can occur during a sync operation.
#[derive(Debug, Clone, PartialEq, Eq)]
pub enum SyncError {
    /// A SQLite API returned a result code other than `SQLITE_OK`.
    Sqlite {
        /// Raw SQLite result code (e.g. `SQLITE_BUSY = 5`).
        code: i32,
        /// Human-readable message from SQLite.
        msg: String,
    },
    /// An I/O failure on the local filesystem or network stream, by its text.
    Io(String),
    /// The two endpoints could not agree on a protocol version, or a framing
    /// invariant was violated.
    Protocol(String),
    /// The remote server process could not be started.
    RemoteLaunch(String),
    /// A network transport failed to connect or serve.
    Network(String),
    /// The two databases have different page sizes, which prevents in-place
    /// page transfer.
    PageSizeMismatch {
        /// Page size reported by the origin database.
        origin: u32,
        /// Page size reported by the replica database.
        replica: u32,
    },
    /// The database file is locked and could not be acquired after retries.
    Busy(String),
    /// Message serialisation or deserialisation failed.
    Codec(String),
}

/// Convenience alias used throughout the crate.
pub type Result<T> = core::result::Result<T, SyncError>;

impl SyncError {
    /// The text shown for this error.
    pub open spec fn shown(self) -> Seq<char> {
        match self {
            SyncError::Sqlite { code, msg } => "SQLite error (code "@ + text::signed_decimal(
                code as int,
            ) + "): "@ + msg@,
            SyncError::Io(m) => "I/O error: "@ + m@,
            SyncError::Protocol(m) => "Protocol error: "@ + m@,
            SyncError::RemoteLaunch(m) => "Failed to launch remote endpoint: "@ + m@,
            SyncError::Network(m) => "Network error: "@ + m@,
            SyncError::PageSizeMismatch { origin, replica } => "Page-size mismatch: origin="@
                + text::decimal(origin as nat) + ", replica="@ + text::decimal(replica as nat),
            SyncError::Busy(m) => "Database busy / locked: "@ + m@,
            SyncError::Codec(m) => "Codec error: "@ + m@,
        }
    }

    /// Whether this is a protocol error with exactly the given text.
    pub open spec fn is_protocol(self, message: Seq<char>) -> bool {
        self matches SyncError::Protocol(m) && m@ == message
    }

    /// Whether this is a codec error with exactly the given text.
    pub open spec fn is_codec(self, message: Seq<char>) -> bool {
        self matches SyncError::Codec(m) && m@ == message
    }

    /// Construct a [`SyncError::Sqlite`] from a raw result code and a message.
    pub fn sqlite(code: i32, msg: &str) -> (r: SyncError)
        ensures
            r matches SyncError::Sqlite { code: c, msg: m } && c == code && m@ == msg@,
    {
        SyncError::Sqlite { code, msg: msg.to_owned() }
    }

    /// Construct a [`SyncError::Protocol`] from a message.
    pub fn protocol(msg: &str) -> (r: SyncError)
        ensures
            r.is_protocol(msg@),
    {
        SyncError::Protocol(msg.to_owned())
    }

    /// The text shown for this error.
    pub fn display(&self) -> (r: String)
        ensures
            r@ == self.shown(),
    {
        match self {
            SyncError::Sqlite { code, msg } => {
                let mut s: String = "SQLite error (code ".to_owned();
                s.append(text::i64_text(*code as i64).as_str());
                s.append("): ");
                s.append(msg.as_str());
                s
            },
            SyncError::Io(m) => concat("I/O error: ", m.as_str()),
            SyncError::Protocol(m) => concat("Protocol error: ", m.as_str()),
            SyncError::RemoteLaunch(m) => concat("Failed to launch remote endpoint: ", m.as_str()),
            SyncError::Network(m) => concat("Network error: ", m.as_str()),
            SyncError::PageSizeMismatch { origin, replica } => {
                let mut s: String = "Page-size mismatch: origin=".to_owned();
                s.append(text::u64_text(*origin as u64).as_str());
                s.append(", replica=");
                s.append(text::u64_text(*replica as u64).as_str());
                s
            },
            SyncError::Busy(m) => concat("Database busy / locked: ", m.as_str()),
            SyncError::Codec(m) => concat("Codec error: ", m.as_str()),
        }
    }
}

/// `a` followed by `b`.
pub fn concat(a: &str, b: &str) -> (r: String)
    ensures
        r@ == a@ + b@,
{
    let mut s: String = a.to_owned();
    s.append(b);
    s
}

/// The text of an error starts with its kind and ends with what it says.
pub proof fn law_error_text_tells_its_kind(m: String, code: i32)
    ensures
        SyncError::Io(m).shown() == "I/O error: "@ + m@,
        SyncError::Protocol(m).shown() == "Protocol error: "@ + m@,
        SyncError::RemoteLaunch(m).shown() == "Failed to launch remote endpoint: "@ + m@,
        SyncError::Network(m).shown() == "Network error: "@ + m@,
        SyncError::Busy(m).shown() == "Database busy / locked: "@ + m@,
        SyncError::Codec(m).shown() == "Codec error: "@ + m@,
        m@.is_suffix_of((SyncError::Sqlite { code, msg: m }).shown()),
        ("SQLite error (code "@ + text::signed_decimal(code as int)).is_prefix_of(
            (SyncError::Sqlite { code, msg: m }).shown(),
        ),
{
    let s = SyncError::Sqlite { code, msg: m }.shown();
    assert(s.skip(s.len() - m@.len()) =~= m@);
}

/// A protocol error has the text that it is made with, and no other; a codec error is
/// another kind.
pub proof fn law_errors_carry_their_text(m: String, t: Seq<char>)
    ensures
        SyncError::Protocol(m).is_protocol(t) <==> m@ == t,
        SyncError::Codec(m).is_codec(t) <==> m@ == t,
        !SyncError::Protocol(m).is_codec(t),
        !SyncError::Codec(m).is_protocol(t),
        !SyncError::Network(m).is_protocol(t),
        !SyncError::Io(m).is_protocol(t),
        !SyncError::Busy(m).is_protocol(t),
        !SyncError::RemoteLaunch(m).is_protocol(t),
{
}

} // verus!
