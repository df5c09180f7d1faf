//! Errors of the gateway client.
use vstd::prelude::*;

use crate::error::SyncError;
use crate::rpc;
use crate::rpc::{Code, Status};
use crate::text;

verus! {

/// Why a call of the client failed.
#[derive(Debug)]
#[non_exhaustive]
pub enum ClientError {
    /// The endpoint is not a URI. This is never retried.
    InvalidEndpoint { endpoint: String, source: String },
    /// The endpoint could not be reached.
    Connect { endpoint: String, source: String },
    /// The writer was not found.
    Discovery { message: String, source: Option<String> },
    /// The call was answered with an error.
    Rpc(Box<Status>),
    /// The attempts are used up.
    RetriesExhausted { attempts: usize, source: Box<ClientError> },
}

/// The result of a call of the client.
pub type ClientResult<T> = Result<T, ClientError>;

impl ClientError {
    /// The text shown for this error.
    pub open spec fn shown(self) -> Seq<char>
        decreases self,
    {
        match self {
            ClientError::InvalidEndpoint { endpoint, source } => "invalid endpoint '"@ + endpoint@
                + "': "@ + source@,
            ClientError::Connect { endpoint, source } => "failed to connect to '"@ + endpoint@
                + "': "@ + source@,
            ClientError::Discovery { message, source } => "leader discovery failed: "@ + message@,
            ClientError::Rpc(status) => "gRPC call failed (code: "@ + status.code.label() + "): "@
                + status.message@,
            ClientError::RetriesExhausted { attempts, source } => "gave up after "@
                + text::decimal(attempts as nat) + " attempt(s): "@ + (*source).shown(),
        }
    }

    /// The status of the call that this error comes from, where there is one.
    pub open spec fn underlying(self) -> Option<Status>
        decreases self,
    {
        match self {
            ClientError::Rpc(status) => Some(*status),
            ClientError::RetriesExhausted { attempts, source } => (*source).underlying(),
            _ => None,
        }
    }

    /// The error of a discovery that found nothing.
    pub fn discovery(message: &str) -> (r: ClientError)
        ensures
            r matches ClientError::Discovery { message: m, source: None } && m@ == message@,
    {
        ClientError::Discovery { message: message.to_owned(), source: None }
    }

    /// The error of a discovery that failed for a reason of its own.
    pub fn discovery_with_source(message: &str, source: String) -> (r: ClientError)
        ensures
            r matches ClientError::Discovery { message: m, source: Some(s) } && m@ == message@ && s
                == source,
    {
        ClientError::Discovery { message: message.to_owned(), source: Some(source) }
    }

    /// The text shown for this error.
    pub fn display(&self) -> (r: String)
        ensures
            r@ == self.shown(),
        decreases self,
    {
        match self {
            ClientError::InvalidEndpoint { endpoint, source } => {
                let mut s: String = "invalid endpoint '".to_owned();
                s.append(endpoint.as_str());
                s.append("': ");
                s.append(source.as_str());
                s
            },
            ClientError::Connect { endpoint, source } => {
                let mut s: String = "failed to connect to '".to_owned();
                s.append(endpoint.as_str());
                s.append("': ");
                s.append(source.as_str());
                s
            },
            ClientError::Discovery { message, .. } => {
                let mut s: String = "leader discovery failed: ".to_owned();
                s.append(message.as_str());
                s
            },
            ClientError::Rpc(status) => {
                let mut s: String = "gRPC call failed (code: ".to_owned();
                s.append(status.code.name());
                s.append("): ");
                s.append(status.message.as_str());
                s
            },
            ClientError::RetriesExhausted { attempts, source } => {
                let mut s: String = "gave up after ".to_owned();
                s.append(text::u64_text(*attempts as u64).as_str());
                s.append(" attempt(s): ");
                let inner: String = source.display();
                s.append(inner.as_str());
                s
            },
        }
    }

    /// The status of the call that this error comes from, where there is one.
    pub fn status(&self) -> (r: Option<&Status>)
        ensures
            match r {
                Some(s) => self.underlying() == Some(*s),
                None => self.underlying() is None,
            },
        decreases self,
    {
        match self {
            ClientError::Rpc(status) => Some(&**status),
            ClientError::RetriesExhausted { source, .. } => source.status(),
            _ => None,
        }
    }

    /// The code of that status.
    pub fn code(&self) -> (r: Option<Code>)
        ensures
            r == match self.underlying() {
                Some(s) => Some(s.code),
                None => None,
            },
    {
        match self.status() {
            Some(s) => Some(s.code),
            None => None,
        }
    }

    /// Whether the node that was called is not the writer.
    pub fn is_not_leader(&self) -> (r: bool)
        ensures
            r == (self.underlying() matches Some(s) && rpc::says_not_leader(s)),
    {
        match self.status() {
            Some(s) => rpc::is_not_leader_status(s),
            None => false,
        }
    }

    /// Whether a retry may help: the node that was called is not the writer, or
    /// the failure is transient.
    pub open spec fn retryable(self) -> bool {
        self.underlying() matches Some(s) && (rpc::says_not_leader(s) || s.code == Code::Unavailable
            || s.code == Code::DeadlineExceeded)
    }

    /// Whether a retry may help: the node that was called is not the writer, or
    /// the failure is transient.
    pub fn is_retryable(&self) -> (r: bool)
        ensures
            r == self.retryable(),
            r == (self.underlying() matches Some(s) && (rpc::says_not_leader(s) || s.code
                == Code::Unavailable || s.code == Code::DeadlineExceeded)),
    {
        if self.is_not_leader() {
            return true;
        }
        match self.code() {
            Some(Code::Unavailable) => true,
            Some(Code::DeadlineExceeded) => true,
            _ => false,
        }
    }

    /// Whether an endpoint could not be reached, at the last attempt at least.
    pub open spec fn is_unreachable(self) -> bool {
        self is Connect || (self matches ClientError::RetriesExhausted { attempts, source }
            && *source is Connect)
    }

    /// This error as one of the synchroniser.
    pub fn into_sync_error(self) -> (r: SyncError)
        ensures
            if self.is_unreachable() {
                r matches SyncError::Network(m) && m@ == self.shown()
            } else {
                r.is_protocol(self.shown())
            },
    {
        let shown: String = self.display();
        match &self {
            ClientError::Connect { .. } => SyncError::Network(shown),
            ClientError::RetriesExhausted { source, .. } => match &**source {
                ClientError::Connect { .. } => SyncError::Network(shown),
                _ => SyncError::Protocol(shown),
            },
            _ => SyncError::Protocol(shown),
        }
    }
}

/// The text of an error tells where the client came to a halt, and the error below it.
pub proof fn law_error_text_tells_the_place(e: ClientError)
    ensures
        match e {
            ClientError::InvalidEndpoint { endpoint, source } => e.shown()
                == "invalid endpoint '"@ + endpoint@ + "': "@ + source@,
            ClientError::Connect { endpoint, source } => e.shown() == "failed to connect to '"@
                + endpoint@ + "': "@ + source@,
            ClientError::Discovery { message, .. } => message@.is_suffix_of(e.shown())
                && "leader discovery failed: "@.is_prefix_of(e.shown()),
            ClientError::Rpc(status) => status.message@.is_suffix_of(e.shown())
                && "gRPC call failed (code: "@.is_prefix_of(e.shown()),
            ClientError::RetriesExhausted { attempts, source } => (*source).shown().is_suffix_of(
                e.shown(),
            ) && ("gave up after "@ + text::decimal(attempts as nat) + " attempt(s): "@).is_prefix_of(
                e.shown(),
            ),
        },
{
    match e {
        ClientError::Discovery { message, source } => {
            let s = e.shown();
            assert(s.skip(s.len() - message@.len()) =~= message@);
        },
        ClientError::Rpc(status) => {
            let s = e.shown();
            assert(s.skip(s.len() - status.message@.len()) =~= status.message@);
        },
        ClientError::RetriesExhausted { attempts, source } => {
            let s = e.shown();
            let t = (*source).shown();
            assert(s.skip(s.len() - t.len()) =~= t);
        },
        _ => {},
    }
}

/// The status of an error is that of the call that was answered with it, also behind
/// used up attempts; an error without an answer has none.
pub proof fn law_status_is_that_of_the_answer(status: Status, attempts: usize, e: ClientError)
    ensures
        ClientError::Rpc(Box::new(status)).underlying() == Some(status),
        (ClientError::RetriesExhausted { attempts, source: Box::new(e) }).underlying()
            == e.underlying(),
        e is InvalidEndpoint || e is Connect || e is Discovery ==> e.underlying() is None,
{
}

/// An endpoint was out of reach exactly if connecting failed, at the last attempt
/// where there were several.
pub proof fn law_unreachable_is_a_failed_connection(e: ClientError, attempts: usize)
    ensures
        e is Connect ==> e.is_unreachable() && (ClientError::RetriesExhausted {
            attempts,
            source: Box::new(e),
        }).is_unreachable(),
        e is InvalidEndpoint || e is Discovery || e is Rpc ==> !e.is_unreachable() && !((
        ClientError::RetriesExhausted { attempts, source: Box::new(e) }).is_unreachable()),
{
}

/// A retry may help after an answer that the node is not the writer, that it is not
/// available or that time ran out; not after another answer, nor without one.
pub proof fn law_retry_may_help_after_passing_failures(e: ClientError)
    ensures
        e.underlying() is None ==> !e.retryable(),
        e.underlying() matches Some(s) ==> {
            &&& s.code == Code::Unavailable ==> e.retryable()
            &&& s.code == Code::DeadlineExceeded ==> e.retryable()
            &&& rpc::says_not_leader(s) ==> e.retryable()
            &&& s.code != Code::Unavailable && s.code != Code::DeadlineExceeded
                && !rpc::says_not_leader(s) ==> !e.retryable()
        },
{
}

} // verus!
