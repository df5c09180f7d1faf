//! The calls of the gateway client: connecting, retrying and following the
//! writer.
use vstd::prelude::*;

use crate::client::config::ClientConfig;
use crate::client::discovery;
use crate::client::error::ClientError;
use crate::gateway::auth;
use crate::gateway::server;
use crate::ha::runtime::HaSharedState;
use crate::proto;
use crate::rpc;
use crate::rpc::{Code, Status};
use crate::text;

verus! {

// ---------------------------------------------------------------------------
// Authorization
// ---------------------------------------------------------------------------

/// The value of the authorization header of a call.
pub open spec fn bearer_value(token: Option<Seq<char>>) -> Option<Seq<u8>> {
    match token {
        None => None,
        Some(t) => {
            let bytes = vstd::utf8::encode_utf8("Bearer "@ + t);
            if rpc::sendable(bytes) {
                Some(bytes)
            } else {
                None
            }
        },
    }
}

/// The value of the authorization header of a call: the token, where there is
/// one that can be sent.
pub fn authorization_value(auth_token: &Option<String>) -> (r: Option<Vec<u8>>)
    ensures
        match r {
            Some(bytes) => bearer_value(text::opt_view(*auth_token)) == Some(bytes@),
            None => bearer_value(text::opt_view(*auth_token)) is None,
        },
{
    match auth_token {
        None => None,
        Some(token) => {
            let mut value: String = "Bearer ".to_owned();
            value.append(token.as_str());
            rpc::metadata_value(value.as_str())
        },
    }
}

/// A gateway that requires a token of visible ASCII accepts the calls of a
/// client with that token.
pub proof fn law_client_with_token_passes(token: Seq<char>)
    requires
        rpc::visible_text(token),
    ensures
        bearer_value(Some(token)) is Some,
        auth::auth_refusal(Some(token), bearer_value(Some(token))) is None,
{
    let value = "Bearer "@ + token;
    reveal_strlit("Bearer ");
    assert(rpc::visible_text(value)) by {
        assert forall|i: int| 0 <= i < value.len() implies (' ' <= #[trigger] value[i] && value[i]
            <= '~') || value[i] == '\t' by {
            if i >= 7 {
                assert(value[i] == token[i - 7]);
            }
        }
    }
    rpc::law_visible_text_survives(value);
    auth::law_only_the_token_passes(token, bearer_value(Some(token)));
}

// ---------------------------------------------------------------------------
// Retrying
// ---------------------------------------------------------------------------

/// The calls of the gateway.
#[derive(Debug, Clone, Copy, PartialEq, Eq, Structural)]
pub enum CallKind {
    Execute,
    Query,
    StreamQuery,
    Batch,
    DropDatabase,
    ClusterStatus,
}

impl CallKind {
    /// Whether a call may be repeated when it is not known what came of it.
    pub open spec fn repeatable(self) -> bool {
        self != CallKind::Execute && self != CallKind::Batch
    }

    /// Whether a call may be repeated when it is not known what came of it.
    pub fn is_idempotent(&self) -> (r: bool)
        ensures
            r == self.repeatable(),
    {
        match self {
            CallKind::Execute => false,
            CallKind::Batch => false,
            _ => true,
        }
    }
}

/// The wait after the next attempt.
pub open spec fn doubled_wait(current_ms: u64, max_ms: u64) -> u64 {
    if 2 * current_ms <= max_ms {
        (2 * current_ms) as u64
    } else {
        max_ms
    }
}

/// The wait after the next attempt.
pub fn next_backoff(current_ms: u64, max_ms: u64) -> (r: u64)
    ensures
        r == doubled_wait(current_ms, max_ms),
{
    let twice: u64 = if current_ms <= u64::MAX / 2 {
        2 * current_ms
    } else {
        u64::MAX
    };
    if twice <= max_ms {
        twice
    } else {
        max_ms
    }
}

/// Whether a call is given up after so many attempts that may be repeated.
pub open spec fn gives_up(attempts: nat, max_retries: nat) -> bool {
    attempts >= max_retries
}

/// What the client does next for a call.
#[derive(Debug)]
pub enum CallStep {
    /// Connect to this endpoint.
    Connect(String),
    /// Send the call over the connection.
    Send,
    /// Wait so many milliseconds, then make the next attempt.
    Wait(u64),
    /// Give up.
    Fail(ClientError),
}

/// Whether a status lets a call be repeated.
pub open spec fn retried(kind: CallKind, status: Status) -> bool {
    rpc::says_not_leader(status) || (kind.repeatable() && (status.code == Code::Unavailable
        || status.code == Code::DeadlineExceeded))
}

/// The endpoint of the writer that a status names.
pub open spec fn named_writer(status: Status) -> Option<Seq<char>> {
    match rpc::header_of(status.headers(), proto::HEADER_RSQLITE_LEADER_ENDPOINT@) {
        Some(bytes) => if rpc::visible(bytes) && bytes.len() > 0 {
            Some(discovery::normalized(rpc::ascii_text(bytes)))
        } else {
            None
        },
        None => None,
    }
}

/// The endpoint of the writer that a status names, where it does.
pub fn leader_hint(status: &Status) -> (r: Option<String>)
    ensures
        text::opt_view(r) == named_writer(*status),
{
    match status.header(proto::HEADER_RSQLITE_LEADER_ENDPOINT) {
        None => None,
        Some(bytes) => match rpc::metadata_text(bytes.as_slice()) {
            None => None,
            Some(endpoint) => {
                if endpoint.as_str().is_empty() {
                    return None;
                }
                Some(discovery::normalize_endpoint(endpoint.as_str()))
            },
        },
    }
}

/// A client of the gateway.
#[derive(Debug, Clone)]
pub struct SqlGatewayClient {
    config: ClientConfig,
    current_endpoint: Option<String>,
    connected: bool,
}

/// A call that is being made.
#[derive(Debug)]
pub struct Call {
    kind: CallKind,
    attempts: usize,
    backoff_ms: u64,
}

impl Call {
    /// The call.
    pub closed spec fn purpose(self) -> CallKind {
        self.kind
    }

    /// The number of attempts so far, the one under way included.
    pub closed spec fn attempts(self) -> nat {
        self.attempts as nat
    }

    /// The wait after the attempt under way.
    pub closed spec fn wait(self) -> u64 {
        self.backoff_ms
    }
}

impl SqlGatewayClient {
    /// The settings.
    pub closed spec fn settings(self) -> ClientConfig {
        self.config
    }

    /// The endpoint in use.
    pub closed spec fn endpoint(self) -> Option<Seq<char>> {
        text::opt_view(self.current_endpoint)
    }

    /// Whether there is a connection to it.
    pub closed spec fn is_up(self) -> bool {
        self.connected
    }

    /// A client that has not connected yet.
    pub fn new(config: ClientConfig) -> (r: SqlGatewayClient)
        ensures
            r.settings() == config,
            r.endpoint() is None,
            !r.is_up(),
    {
        SqlGatewayClient { config, current_endpoint: None, connected: false }
    }

    /// The settings.
    pub fn config(&self) -> (r: &ClientConfig)
        ensures
            *r == self.settings(),
    {
        &self.config
    }

    /// The endpoint in use.
    pub fn current_endpoint(&self) -> (r: &Option<String>)
        ensures
            text::opt_view(*r) == self.endpoint(),
    {
        &self.current_endpoint
    }

    /// Whether there is a connection to it.
    pub fn is_connected(&self) -> (r: bool)
        ensures
            r == self.is_up(),
    {
        self.connected
    }

    /// Forget the connection and the endpoint, so that the next call finds the
    /// writer anew.
    pub fn reset_connection(&mut self)
        ensures
            final(self).settings() == old(self).settings(),
            final(self).endpoint() is None,
            !final(self).is_up(),
    {
        self.connected = false;
        self.current_endpoint = None;
    }

    /// Use the endpoint of the writer that a status names; without one, find the
    /// writer anew.
    pub fn process_leader_header(&mut self, status: &Status)
        ensures
            final(self).settings() == old(self).settings(),
            final(self).endpoint() == named_writer(*status),
            !final(self).is_up(),
    {
        self.current_endpoint = leader_hint(status);
        self.connected = false;
    }

    /// Begin a call.
    pub fn begin(&self, kind: CallKind) -> (r: Call)
        ensures
            r.purpose() == kind,
            r.attempts() == 0,
            r.wait() == self.settings().initial_backoff_ms,
    {
        Call { kind, attempts: 0, backoff_ms: self.config.initial_backoff_ms }
    }

    /// Begin the next attempt of a call.
    pub fn next_attempt(&self, call: &mut Call) -> (r: NextConnection)
        requires
            old(call).attempts() < usize::MAX,
        ensures
            final(call).purpose() == old(call).purpose(),
            final(call).attempts() == old(call).attempts() + 1,
            final(call).wait() == old(call).wait(),
            match r {
                NextConnection::Ready => self.is_up(),
                NextConnection::Known(e) => !self.is_up() && self.endpoint() == Some(e@),
                NextConnection::Unknown => !self.is_up() && self.endpoint() is None,
            },
    {
        call.attempts = call.attempts + 1;
        if self.connected {
            return NextConnection::Ready;
        }
        match &self.current_endpoint {
            Some(e) => NextConnection::Known(e.clone()),
            None => NextConnection::Unknown,
        }
    }

    /// An attempt to connect failed: what follows.
    pub fn on_connect_error(&mut self, call: &mut Call, error: ClientError) -> (r: CallStep)
        ensures
            final(self).settings() == old(self).settings(),
            final(call).purpose() == old(call).purpose(),
            final(call).attempts() == old(call).attempts(),
            if error is InvalidEndpoint {
                r == CallStep::Fail(error)
            } else if old(call).attempts() >= old(self).settings().max_retries {
                r == CallStep::Fail(
                    ClientError::RetriesExhausted {
                        attempts: old(call).attempts() as usize,
                        source: Box::new(error),
                    },
                )
            } else {
                r == CallStep::Wait(old(call).wait()) && final(call).wait() == doubled_wait(
                    old(call).wait(),
                    old(self).settings().max_backoff_ms,
                ) && final(self).endpoint() is None && !final(self).is_up()
            },
            r is Fail ==> *final(self) == *old(self) && *final(call) == *old(call),
            r is Fail <==> error is InvalidEndpoint || gives_up(
                old(call).attempts(),
                old(self).settings().max_retries as nat,
            ),
    {
        match error {
            ClientError::InvalidEndpoint { endpoint, source } => CallStep::Fail(
                ClientError::InvalidEndpoint { endpoint, source },
            ),
            other => {
                if call.attempts >= self.config.max_retries {
                    return CallStep::Fail(
                        ClientError::RetriesExhausted {
                            attempts: call.attempts,
                            source: Box::new(other),
                        },
                    );
                }
                let wait: u64 = call.backoff_ms;
                call.backoff_ms = next_backoff(wait, self.config.max_backoff_ms);
                self.reset_connection();
                CallStep::Wait(wait)
            },
        }
    }

    /// The endpoint to connect to is known, and whether it is well-formed: what
    /// follows.
    pub fn on_endpoint(&mut self, call: &mut Call, endpoint: String, problem: Option<String>) -> (r:
        CallStep)
        ensures
            *final(self) == *old(self),
            *final(call) == *old(call),
            match problem {
                None => r == CallStep::Connect(endpoint),
                Some(source) => r == CallStep::Fail(
                    ClientError::InvalidEndpoint { endpoint, source },
                ),
            },
    {
        match problem {
            None => CallStep::Connect(endpoint),
            Some(source) => self.on_connect_error(
                call,
                ClientError::InvalidEndpoint { endpoint, source },
            ),
        }
    }

    /// The endpoint to connect to is known: what follows.
    pub fn connect_to(&mut self, call: &mut Call, endpoint: String) -> (r: CallStep)
        ensures
            *final(self) == *old(self),
            *final(call) == *old(call),
            match discovery::endpoint_problem(endpoint@) {
                None => r == CallStep::Connect(endpoint),
                Some(p) => r matches CallStep::Fail(
                    ClientError::InvalidEndpoint { endpoint: e, source },
                ) && e == endpoint && source@ == p,
            },
    {
        let problem: Option<String> = discovery::check_endpoint(endpoint.as_str());
        self.on_endpoint(call, endpoint, problem)
    }

    /// The attempt to connect to an endpoint came to an end: what follows.
    pub fn on_connected(
        &mut self,
        call: &mut Call,
        endpoint: String,
        outcome: Result<(), String>,
    ) -> (r: CallStep)
        ensures
            final(self).settings() == old(self).settings(),
            final(call).purpose() == old(call).purpose(),
            final(call).attempts() == old(call).attempts(),
            match outcome {
                Ok(()) => r is Send && final(self).endpoint() == Some(endpoint@)
                    && final(self).is_up() && *final(call) == *old(call),
                Err(source) => if old(call).attempts() >= old(self).settings().max_retries {
                    r == CallStep::Fail(
                        ClientError::RetriesExhausted {
                            attempts: old(call).attempts() as usize,
                            source: Box::new(ClientError::Connect { endpoint, source }),
                        },
                    )
                } else {
                    r == CallStep::Wait(old(call).wait()) && final(call).wait() == doubled_wait(
                        old(call).wait(),
                        old(self).settings().max_backoff_ms,
                    ) && final(self).endpoint() is None && !final(self).is_up()
                },
            },
            r is Fail ==> *final(self) == *old(self) && *final(call) == *old(call),
            r is Fail <==> outcome is Err && gives_up(
                old(call).attempts(),
                old(self).settings().max_retries as nat,
            ),
    {
        match outcome {
            Ok(()) => {
                self.current_endpoint = Some(endpoint);
                self.connected = true;
                CallStep::Send
            },
            Err(source) => self.on_connect_error(call, ClientError::Connect { endpoint, source }),
        }
    }

    /// A call was answered with an error: what follows.
    pub fn on_error_reply(&mut self, call: &mut Call, status: Status) -> (r: CallStep)
        ensures
            final(self).settings() == old(self).settings(),
            final(call).purpose() == old(call).purpose(),
            final(call).attempts() == old(call).attempts(),
            if !retried(old(call).purpose(), status) {
                r == CallStep::Fail(ClientError::Rpc(Box::new(status)))
            } else if old(call).attempts() >= old(self).settings().max_retries {
                r == CallStep::Fail(
                    ClientError::RetriesExhausted {
                        attempts: old(call).attempts() as usize,
                        source: Box::new(ClientError::Rpc(Box::new(status))),
                    },
                )
            } else {
                r == CallStep::Wait(old(call).wait()) && final(call).wait() == doubled_wait(
                    old(call).wait(),
                    old(self).settings().max_backoff_ms,
                ) && final(self).endpoint() == named_writer(status) && !final(self).is_up()
            },
            r is Fail ==> *final(self) == *old(self) && *final(call) == *old(call),
            r is Fail <==> !retried(old(call).purpose(), status) || gives_up(
                old(call).attempts(),
                old(self).settings().max_retries as nat,
            ),
    {
        let transient: bool = match status.code {
            Code::Unavailable => true,
            Code::DeadlineExceeded => true,
            _ => false,
        };
        if !(rpc::is_not_leader_status(&status) || (call.kind.is_idempotent() && transient)) {
            return CallStep::Fail(ClientError::Rpc(Box::new(status)));
        }
        if call.attempts >= self.config.max_retries {
            return CallStep::Fail(
                ClientError::RetriesExhausted {
                    attempts: call.attempts,
                    source: Box::new(ClientError::Rpc(Box::new(status))),
                },
            );
        }
        self.process_leader_header(&status);
        let wait: u64 = call.backoff_ms;
        call.backoff_ms = next_backoff(wait, self.config.max_backoff_ms);
        CallStep::Wait(wait)
    }
}

/// What an attempt begins with.
#[derive(Debug)]
pub enum NextConnection {
    /// There is a connection.
    Ready,
    /// The endpoint to connect to is known.
    Known(String),
    /// The writer has to be found.
    Unknown,
}

/// A write of which it is not known what came of it is not repeated: it is
/// repeated only if the node that was called says that it is not the writer.
pub proof fn law_writes_are_repeated_only_on_refusal(kind: CallKind, status: Status)
    requires
        !kind.repeatable(),
    ensures
        retried(kind, status) <==> rpc::says_not_leader(status),
{
}

/// The wait after an attempt never exceeds the longest wait.
pub proof fn law_wait_is_bounded(current_ms: u64, max_ms: u64)
    ensures
        doubled_wait(current_ms, max_ms) <= max_ms,
        doubled_wait(current_ms, max_ms) <= 2 * current_ms,
{
}

/// The number of the last attempt of a call, of which attempt `n` has failed in
/// a way that lets it be repeated, as all further ones do.
pub open spec fn last_attempt(n: nat, max_retries: nat) -> nat
    decreases max_retries - n,
{
    if gives_up(n, max_retries) {
        n
    } else {
        last_attempt(n + 1, max_retries)
    }
}

proof fn lemma_last_attempt(n: nat, max_retries: nat)
    ensures
        last_attempt(n, max_retries) == if n >= max_retries {
            n
        } else {
            max_retries
        },
    decreases max_retries - n,
{
    if n < max_retries {
        lemma_last_attempt(n + 1, max_retries);
    }
}

/// A call is attempted as often as the settings say, and at least once.
pub proof fn law_attempts_are_bounded(max_retries: nat)
    ensures
        last_attempt(1, max_retries) == if max_retries >= 1 {
            max_retries
        } else {
            1
        },
{
    lemma_last_attempt(1, max_retries);
}

/// A client whose call is refused by a node that knows the writer goes to the
/// writer next: to the endpoint that the node knows of, if that is visible ASCII.
pub proof fn law_refused_call_goes_to_writer(
    status: Status,
    state: HaSharedState,
    endpoint: Seq<char>,
    kind: CallKind,
)
    requires
        server::is_redirect(status, state),
        text::opt_view(state.active_leader_endpoint) == Some(endpoint),
        endpoint.len() > 0,
        rpc::visible_text(endpoint),
    ensures
        retried(kind, status),
        named_writer(status) == Some(discovery::normalized(endpoint)),
{
    server::law_redirect_names_the_writer(status, state);
    rpc::law_visible_text_survives(endpoint);
    let bytes = vstd::utf8::encode_utf8(endpoint);
    assert(rpc::ascii_text(bytes).len() == bytes.len());
}

/// A call carries its token behind the bearer scheme, where there is one that can be
/// sent, and else no authorization.
pub proof fn law_call_carries_its_token(token: Seq<char>)
    ensures
        bearer_value(None) is None,
        rpc::sendable(vstd::utf8::encode_utf8("Bearer "@ + token)) ==> bearer_value(Some(token))
            == Some(vstd::utf8::encode_utf8("Bearer "@ + token)),
        !rpc::sendable(vstd::utf8::encode_utf8("Bearer "@ + token)) ==> bearer_value(
            Some(token),
        ) is None,
{
}

/// The wait doubles with each attempt until it reaches the longest one, and stays
/// there.
pub proof fn law_wait_doubles_up_to_the_longest(current_ms: u64, max_ms: u64)
    ensures
        2 * current_ms <= max_ms ==> doubled_wait(current_ms, max_ms) == 2 * current_ms,
        2 * current_ms > max_ms ==> doubled_wait(current_ms, max_ms) == max_ms,
        doubled_wait(max_ms, max_ms) == max_ms,
{
}

/// Reads, a status, and dropping a database may be repeated; a write and a batch may
/// not.
pub proof fn law_reads_may_be_repeated(kind: CallKind)
    ensures
        kind.repeatable() <==> kind == CallKind::Query || kind == CallKind::StreamQuery || kind
            == CallKind::DropDatabase || kind == CallKind::ClusterStatus,
{
}

/// A call that may be repeated is repeated after a failure that passes; no call is
/// repeated after any other, unless the node is not the writer.
pub proof fn law_passing_failures_are_retried(kind: CallKind, status: Status)
    ensures
        rpc::says_not_leader(status) ==> retried(kind, status),
        kind.repeatable() && (status.code == Code::Unavailable || status.code
            == Code::DeadlineExceeded) ==> retried(kind, status),
        status.code != Code::Unavailable && status.code != Code::DeadlineExceeded && status.code
            != Code::FailedPrecondition ==> !retried(kind, status),
{
}

/// A status names the writer exactly if its entry for that holds a visible text.
pub proof fn law_status_names_the_writer(status: Status, endpoint: Seq<char>)
    requires
        rpc::visible_text(endpoint),
        rpc::header_of(status.headers(), "x-rsqlite-leader-endpoint"@) == Some(
            vstd::utf8::encode_utf8(endpoint),
        ),
    ensures
        endpoint.len() > 0 ==> named_writer(status) == Some(discovery::normalized(endpoint)),
        endpoint.len() == 0 ==> named_writer(status) is None,
{
    rpc::law_visible_text_survives(endpoint);
    let bytes = vstd::utf8::encode_utf8(endpoint);
    assert(rpc::ascii_text(bytes).len() == bytes.len());
}

/// A status without such an entry names no writer.
pub proof fn law_silent_status_names_no_writer(status: Status)
    requires
        rpc::header_of(status.headers(), "x-rsqlite-leader-endpoint"@) is None,
    ensures
        named_writer(status) is None,
{
}

/// A call is given up with the last attempt that the settings allow, and not before.
pub proof fn law_call_is_given_up_with_its_last_attempt(attempts: nat, max_retries: nat)
    ensures
        attempts < max_retries ==> !gives_up(attempts, max_retries),
        gives_up(max_retries, max_retries),
        attempts > max_retries ==> gives_up(attempts, max_retries),
{
}

/// A call is repeated only where a retry may help, and a call that may be repeated
/// wherever it may.
pub proof fn law_calls_are_repeated_where_it_may_help(kind: CallKind, status: Status)
    ensures
        retried(kind, status) ==> ClientError::Rpc(Box::new(status)).retryable(),
        kind.repeatable() ==> (retried(kind, status) <==> ClientError::Rpc(
            Box::new(status),
        ).retryable()),
{
}

} // verus!
