//! What a node answers to the calls of its gateway.
use vstd::prelude::*;

use crate::error::SyncError;
use crate::ha::runtime::HaSharedState;
use crate::proto;
use crate::proto::{
    BatchTransactionMode, ClusterStatusResponse, ConsistencyLevel, DatabaseInfo,
    DropDatabaseResponse, LeaseStatus, ReportedRole, Statement,
};
use crate::rpc;
use crate::rpc::{Code, Header, HeaderView, Status};
use crate::text;

verus! {

/// The number of rows of a chunk where a call does not say.
pub const DEFAULT_CHUNK_SIZE: u32 = 100;

// ---------------------------------------------------------------------------
// Access
// ---------------------------------------------------------------------------

/// A metadata entry, where its value can be sent.
pub open spec fn entry(name: Seq<char>, value: Option<Seq<char>>) -> Seq<HeaderView> {
    match value {
        Some(v) => if rpc::sendable(vstd::utf8::encode_utf8(v)) {
            seq![HeaderView { name, value: vstd::utf8::encode_utf8(v) }]
        } else {
            Seq::empty()
        },
        None => Seq::empty(),
    }
}

/// The metadata with which a node that is not the writer points to the one that
/// is.
pub open spec fn redirect(state: HaSharedState) -> Seq<HeaderView> {
    entry(proto::HEADER_RSQLITE_CODE@, Some(proto::CODE_NOT_LEADER@)) + entry(
        proto::HEADER_RSQLITE_LEADER_ID@,
        text::opt_view(state.active_leader_id),
    ) + entry(
        proto::HEADER_RSQLITE_GENERATION@,
        Some(text::decimal(state.generation as nat)),
    ) + entry(
        proto::HEADER_RSQLITE_LEADER_ENDPOINT@,
        text::opt_view(state.active_leader_endpoint),
    )
}

/// Whether this is the status of a call that only the writer answers.
pub open spec fn is_redirect(status: Status, state: HaSharedState) -> bool {
    status.code == Code::FailedPrecondition && status.message@ == "node is not the active writer"@
        && status.headers() == redirect(state)
}

fn add_entry(metadata: &mut Vec<Header>, name: &str, value: &str)
    ensures
        rpc::header_views(final(metadata)@) == rpc::header_views(old(metadata)@) + entry(
            name@,
            Some(value@),
        ),
{
    let ghost before = metadata@;
    match rpc::metadata_value(value) {
        Some(bytes) => {
            let h: Header = Header { name: name.to_owned(), value: bytes };
            metadata.push(h);
            assert(rpc::header_views(metadata@) == rpc::header_views(before).push(
                HeaderView { name: h.name@, value: h.value@ },
            ));
            assert(rpc::header_views(metadata@) =~= rpc::header_views(before) + entry(
                name@,
                Some(value@),
            ));
        },
        None => {
            assert(rpc::header_views(before) + entry(name@, Some(value@)) =~= rpc::header_views(
                before,
            ));
        },
    }
}

/// The status of a call that only the writer answers.
pub fn not_leader_status(state: &HaSharedState) -> (r: Status)
    ensures
        is_redirect(r, *state),
{
    let mut metadata: Vec<Header> = Vec::new();
    let ghost code = entry(proto::HEADER_RSQLITE_CODE@, Some(proto::CODE_NOT_LEADER@));
    let ghost id = entry(
        proto::HEADER_RSQLITE_LEADER_ID@,
        text::opt_view(state.active_leader_id),
    );
    let ghost generation = entry(
        proto::HEADER_RSQLITE_GENERATION@,
        Some(text::decimal(state.generation as nat)),
    );
    assert(rpc::header_views(metadata@) + code =~= code);
    add_entry(&mut metadata, proto::HEADER_RSQLITE_CODE, proto::CODE_NOT_LEADER);
    match &state.active_leader_id {
        Some(leader) => {
            add_entry(&mut metadata, proto::HEADER_RSQLITE_LEADER_ID, leader.as_str());
        },
        None => {
            assert(code + id =~= code);
        },
    }
    assert(rpc::header_views(metadata@) == code + id);
    add_entry(
        &mut metadata,
        proto::HEADER_RSQLITE_GENERATION,
        text::u64_text(state.generation).as_str(),
    );
    match &state.active_leader_endpoint {
        Some(endpoint) => {
            add_entry(&mut metadata, proto::HEADER_RSQLITE_LEADER_ENDPOINT, endpoint.as_str());
        },
        None => {
            assert(code + id + generation + Seq::<HeaderView>::empty() =~= code + id + generation);
        },
    }
    Status {
        code: Code::FailedPrecondition,
        message: "node is not the active writer".to_owned(),
        metadata,
    }
}

/// The generation with which this node may write at `now_secs`.
pub fn check_write_access(state: &HaSharedState, now_secs: u64) -> (r: Result<u64, Status>)
    ensures
        match r {
            Ok(generation) => state.writes_at(now_secs) && generation == state.generation,
            Err(s) => !state.writes_at(now_secs) && is_redirect(s, *state),
        },
{
    if !state.is_writer(now_secs) {
        return Err(not_leader_status(state));
    }
    Ok(state.generation)
}

/// Whether this node may answer a read at `now_secs`.
pub open spec fn may_read(
    state: HaSharedState,
    now_secs: u64,
    consistency: ConsistencyLevel,
) -> bool {
    state.writes_at(now_secs) || (consistency == ConsistencyLevel::Eventual
        && state.allow_replica_reads)
}

/// The generation with which this node may answer a read at `now_secs`, and
/// whether it does so as a replica.
pub fn check_read_access(state: &HaSharedState, now_secs: u64, consistency: ConsistencyLevel) -> (r:
    Result<(u64, bool), Status>)
    ensures
        match r {
            Ok((generation, as_replica)) => may_read(*state, now_secs, consistency) && generation
                == state.generation && as_replica == !state.writes_at(now_secs),
            Err(s) => !may_read(*state, now_secs, consistency) && is_redirect(s, *state),
        },
{
    let is_writer: bool = state.is_writer(now_secs);
    match consistency {
        ConsistencyLevel::Strong => {
            if !is_writer {
                return Err(not_leader_status(state));
            }
            Ok((state.generation, false))
        },
        ConsistencyLevel::Eventual => {
            if is_writer {
                Ok((state.generation, false))
            } else if state.allow_replica_reads {
                Ok((state.generation, true))
            } else {
                Err(not_leader_status(state))
            }
        },
    }
}

proof fn lemma_code_is_sendable()
    ensures
        rpc::sendable(vstd::utf8::encode_utf8(proto::CODE_NOT_LEADER@)),
{
    reveal_strlit("NOT_LEADER");
    assert(rpc::visible_text(proto::CODE_NOT_LEADER@));
    rpc::law_visible_text_survives(proto::CODE_NOT_LEADER@);
}

proof fn lemma_header_in_rest(a: Seq<HeaderView>, b: Seq<HeaderView>, name: Seq<char>)
    requires
        forall|i: int| 0 <= i < a.len() ==> (#[trigger] a[i]).name != name,
    ensures
        rpc::header_of(a + b, name) == rpc::header_of(b, name),
    decreases a.len(),
{
    if a.len() == 0 {
        assert(a + b == b);
    } else {
        assert((a + b)[0] == a[0]);
        assert((a + b).skip(1) == a.skip(1) + b);
        assert forall|i: int| 0 <= i < a.skip(1).len() implies (#[trigger] a.skip(1)[i]).name
            != name by {
            assert(a.skip(1)[i] == a[i + 1]);
        }
        lemma_header_in_rest(a.skip(1), b, name);
    }
}

/// What a client reads out of the answer of a node that is not the writer: that
/// it is not, and the endpoint of the writer, where that is known and can be
/// sent.
pub proof fn law_redirect_names_the_writer(status: Status, state: HaSharedState)
    requires
        is_redirect(status, state),
    ensures
        rpc::says_not_leader(status),
        rpc::header_of(status.headers(), proto::HEADER_RSQLITE_LEADER_ENDPOINT@) == (
        match state.active_leader_endpoint {
            Some(endpoint) => if rpc::sendable(vstd::utf8::encode_utf8(endpoint@)) {
                Some(vstd::utf8::encode_utf8(endpoint@))
            } else {
                None
            },
            None => None,
        }),
{
    lemma_code_is_sendable();
    reveal_strlit("x-rsqlite-code");
    reveal_strlit("x-rsqlite-leader-id");
    reveal_strlit("x-rsqlite-generation");
    reveal_strlit("x-rsqlite-leader-endpoint");
    let code = entry(proto::HEADER_RSQLITE_CODE@, Some(proto::CODE_NOT_LEADER@));
    let id = entry(
        proto::HEADER_RSQLITE_LEADER_ID@,
        text::opt_view(state.active_leader_id),
    );
    let generation = entry(
        proto::HEADER_RSQLITE_GENERATION@,
        Some(text::decimal(state.generation as nat)),
    );
    let endpoint = entry(
        proto::HEADER_RSQLITE_LEADER_ENDPOINT@,
        text::opt_view(state.active_leader_endpoint),
    );
    assert(redirect(state)[0] == code[0]);
    let name = proto::HEADER_RSQLITE_LEADER_ENDPOINT@;
    let before = code + id + generation;
    assert forall|i: int| 0 <= i < before.len() implies (#[trigger] before[i]).name != name by {
        assert(proto::HEADER_RSQLITE_CODE@.len() == 14);
        assert(proto::HEADER_RSQLITE_LEADER_ID@.len() == 19);
        assert(proto::HEADER_RSQLITE_GENERATION@.len() == 20);
        assert(name.len() == 25);
        if i < code.len() {
            assert(before[i] == code[i]);
        } else if i < code.len() + id.len() {
            assert(before[i] == id[i - code.len()]);
        } else {
            assert(before[i] == generation[i - code.len() - id.len()]);
        }
    }
    lemma_header_in_rest(before, endpoint, name);
    assert(rpc::header_of(endpoint, name) == (if endpoint.len() == 0 {
        None
    } else {
        Some(endpoint[0].value)
    }));
}

// ---------------------------------------------------------------------------
// Calls
// ---------------------------------------------------------------------------

/// The statement of a call, or the status of a call that lacks one.
fn require_statement(statement: Option<Statement>, message: &str) -> (r: Result<Statement, Status>)
    ensures
        match r {
            Ok(s) => statement == Some(s),
            Err(s) => statement is None && s.is_plain(Code::InvalidArgument, message@),
        },
{
    match statement {
        Some(s) => Ok(s),
        None => Err(Status::new(Code::InvalidArgument, message)),
    }
}

/// The statement to execute, and the generation to execute it with.
pub fn admit_execute(state: &HaSharedState, now_secs: u64, statement: Option<Statement>) -> (r:
    Result<(u64, Statement), Status>)
    ensures
        match r {
            Ok((generation, s)) => state.writes_at(now_secs) && generation == state.generation
                && statement == Some(s),
            Err(s) => if !state.writes_at(now_secs) {
                is_redirect(s, *state)
            } else {
                statement is None && s.is_plain(
                    Code::InvalidArgument,
                    "missing statement in execute request"@,
                )
            },
        },
{
    match check_write_access(state, now_secs) {
        Err(s) => Err(s),
        Ok(generation) => match require_statement(
            statement,
            "missing statement in execute request",
        ) {
            Err(s) => Err(s),
            Ok(s) => Ok((generation, s)),
        },
    }
}

/// A read that was let in.
#[derive(Debug)]
pub struct AdmittedQuery {
    pub statement: Statement,
    pub generation: u64,
    pub is_replica_read: bool,
}

/// The consistency of a call; one that is not known is taken as strong.
pub open spec fn effective_consistency(consistency: Option<ConsistencyLevel>) -> ConsistencyLevel {
    match consistency {
        Some(c) => c,
        None => ConsistencyLevel::Strong,
    }
}

/// Whether a read is let in and how, or the status of one that is not.
pub open spec fn query_admission(
    r: Result<AdmittedQuery, Status>,
    state: HaSharedState,
    now_secs: u64,
    consistency: Option<ConsistencyLevel>,
    statement: Option<Statement>,
    missing: Seq<char>,
) -> bool {
    let allowed = may_read(state, now_secs, effective_consistency(consistency));
    match r {
        Ok(q) => allowed && statement == Some(q.statement) && q.generation == state.generation
            && q.is_replica_read == !state.writes_at(now_secs),
        Err(s) => if !allowed {
            is_redirect(s, state)
        } else {
            statement is None && s.is_plain(Code::InvalidArgument, missing)
        },
    }
}

fn admit_read(
    state: &HaSharedState,
    now_secs: u64,
    consistency: Option<ConsistencyLevel>,
    statement: Option<Statement>,
    missing: &str,
) -> (r: Result<AdmittedQuery, Status>)
    ensures
        query_admission(r, *state, now_secs, consistency, statement, missing@),
{
    let level: ConsistencyLevel = match consistency {
        Some(c) => c,
        None => ConsistencyLevel::Strong,
    };
    match check_read_access(state, now_secs, level) {
        Err(s) => Err(s),
        Ok((generation, is_replica_read)) => match require_statement(statement, missing) {
            Err(s) => Err(s),
            Ok(statement) => Ok(AdmittedQuery { statement, generation, is_replica_read }),
        },
    }
}

/// The query to answer.
pub fn admit_query(
    state: &HaSharedState,
    now_secs: u64,
    consistency: Option<ConsistencyLevel>,
    statement: Option<Statement>,
) -> (r: Result<AdmittedQuery, Status>)
    ensures
        query_admission(
            r,
            *state,
            now_secs,
            consistency,
            statement,
            "missing statement in query request"@,
        ),
{
    admit_read(state, now_secs, consistency, statement, "missing statement in query request")
}

/// The query to answer in chunks.
pub fn admit_stream_query(
    state: &HaSharedState,
    now_secs: u64,
    consistency: Option<ConsistencyLevel>,
    statement: Option<Statement>,
) -> (r: Result<AdmittedQuery, Status>)
    ensures
        query_admission(
            r,
            *state,
            now_secs,
            consistency,
            statement,
            "missing statement in stream query request"@,
        ),
{
    admit_read(
        state,
        now_secs,
        consistency,
        statement,
        "missing statement in stream query request",
    )
}

/// The number of rows of a chunk.
pub open spec fn chunk_rows(requested: u32) -> u32 {
    if requested == 0 {
        DEFAULT_CHUNK_SIZE
    } else {
        requested
    }
}

/// The number of rows of a chunk.
pub fn effective_chunk_size(requested: u32) -> (r: u32)
    ensures
        r == chunk_rows(requested),
        r == if requested > 0 {
            requested
        } else {
            DEFAULT_CHUNK_SIZE
        },
{
    if requested > 0 {
        requested
    } else {
        DEFAULT_CHUNK_SIZE
    }
}

/// The transaction mode of a batch; one that is not known is taken as deferred.
pub open spec fn effective_mode(mode: Option<BatchTransactionMode>) -> BatchTransactionMode {
    match mode {
        Some(known) => known,
        None => BatchTransactionMode::Deferred,
    }
}

/// How to run a batch: the transaction mode, where one that is not known is
/// taken as deferred, and the generation.
pub fn admit_batch(state: &HaSharedState, now_secs: u64, mode: Option<BatchTransactionMode>) -> (r:
    Result<(BatchTransactionMode, u64), Status>)
    ensures
        match r {
            Ok((m, generation)) => state.writes_at(now_secs) && generation == state.generation && m
                == match mode {
                Some(known) => known,
                None => BatchTransactionMode::Deferred,
            },
            Err(s) => !state.writes_at(now_secs) && is_redirect(s, *state),
        },
        r matches Ok(admitted) ==> admitted.0 == effective_mode(mode),
{
    let m: BatchTransactionMode = match mode {
        Some(known) => known,
        None => BatchTransactionMode::Deferred,
    };
    match check_write_access(state, now_secs) {
        Err(s) => Err(s),
        Ok(generation) => Ok((m, generation)),
    }
}

/// The response to dropping a database.
pub fn drop_response(existed: bool, generation: u64) -> (r: DropDatabaseResponse)
    ensures
        r == (DropDatabaseResponse { existed, generation }),
{
    DropDatabaseResponse { existed, generation }
}

/// The status of a call whose work failed.
pub fn failed_status(error: &SyncError) -> (r: Status)
    ensures
        r.is_plain(Code::Internal, error.shown()),
{
    Status { code: Code::Internal, message: error.display(), metadata: Vec::new() }
}

/// The status of a call whose work was lost.
pub fn lost_status(join_error: &str) -> (r: Status)
    ensures
        r.is_plain(Code::Internal, "task join error: "@ + join_error@),
{
    let mut m: String = "task join error: ".to_owned();
    m.append(join_error);
    Status { code: Code::Internal, message: m, metadata: Vec::new() }
}

/// A node that is not the writer answers no strong read, and other reads only where
/// replica reads are allowed, marked as such.
pub proof fn law_fenced_node_reads_as_replica(
    r: Result<AdmittedQuery, Status>,
    state: HaSharedState,
    now_secs: u64,
    consistency: Option<ConsistencyLevel>,
    statement: Option<Statement>,
    missing: Seq<char>,
)
    requires
        !state.writes_at(now_secs),
        query_admission(r, state, now_secs, consistency, statement, missing),
    ensures
        effective_consistency(consistency) == ConsistencyLevel::Strong ==> r is Err,
        r matches Ok(q) ==> q.is_replica_read && state.allow_replica_reads,
{
}

// ---------------------------------------------------------------------------
// Status
// ---------------------------------------------------------------------------

/// The text of an option, or else the empty text.
pub open spec fn text_or_empty(s: Option<String>) -> Seq<char> {
    match s {
        Some(t) => t@,
        None => Seq::empty(),
    }
}

fn unwrap_text(s: &Option<String>) -> (r: String)
    ensures
        r@ == text_or_empty(*s),
{
    match s {
        Some(t) => t.clone(),
        None => String::new(),
    }
}

/// The role that a node reports.
pub open spec fn reported_role(state: HaSharedState, now_secs: u64) -> ReportedRole {
    if state.writes_at(now_secs) {
        ReportedRole::Writer
    } else {
        ReportedRole::Replica
    }
}

/// The status of a node.
pub fn cluster_status(
    state: &HaSharedState,
    now_secs: u64,
    databases: Vec<DatabaseInfo>,
    uptime_secs: u64,
    version: &str,
) -> (r: ClusterStatusResponse)
    ensures
        r.node_id@ == state.node_id@,
        r.role == if state.writes_at(now_secs) {
            ReportedRole::Writer
        } else {
            ReportedRole::Replica
        },
        r.role == reported_role(*state, now_secs),
        r.local_generation == state.generation,
        match state.lease_record {
            None => r.lease is None,
            Some(l) => r.lease matches Some(s) && s.is_held && s.holder_node_id@
                == l.holder_node_id@ && s.generation == l.generation && s.renewed_at_secs
                == l.renewed_at_secs && s.ttl_secs == l.ttl_secs && s.is_expired == l.expired(
                now_secs,
            ),
        },
        r.current_leader_id@ == text_or_empty(state.active_leader_id),
        r.current_leader_endpoint@ == text_or_empty(state.active_leader_endpoint),
        r.databases == databases,
        r.uptime_secs == uptime_secs,
        r.version@ == version@,
{
    let role: ReportedRole = if state.is_writer(now_secs) {
        ReportedRole::Writer
    } else {
        ReportedRole::Replica
    };
    let lease: Option<LeaseStatus> = match &state.lease_record {
        None => None,
        Some(l) => Some(
            LeaseStatus {
                is_held: true,
                holder_node_id: l.holder_node_id.clone(),
                generation: l.generation,
                renewed_at_secs: l.renewed_at_secs,
                ttl_secs: l.ttl_secs,
                is_expired: l.is_expired(now_secs),
            },
        ),
    };
    ClusterStatusResponse {
        node_id: state.node_id.clone(),
        role,
        local_generation: state.generation,
        lease,
        current_leader_id: unwrap_text(&state.active_leader_id),
        current_leader_endpoint: unwrap_text(&state.active_leader_endpoint),
        databases,
        uptime_secs,
        version: version.to_owned(),
    }
}

/// The status of a node that stands alone.
pub fn standalone_status(databases: Vec<DatabaseInfo>, version: &str) -> (r: ClusterStatusResponse)
    ensures
        r.node_id@ == "standalone-edge"@,
        r.role == ReportedRole::Writer,
        r.local_generation == 1,
        r.lease is None,
        r.current_leader_id@ == "standalone-edge"@,
        r.current_leader_endpoint@ == "local://in-process"@,
        r.databases == databases,
        r.uptime_secs == 0,
        r.version@ == version@,
{
    ClusterStatusResponse {
        node_id: "standalone-edge".to_owned(),
        role: ReportedRole::Writer,
        local_generation: 1,
        lease: None,
        current_leader_id: "standalone-edge".to_owned(),
        current_leader_endpoint: "local://in-process".to_owned(),
        databases,
        uptime_secs: 0,
        version: version.to_owned(),
    }
}

/// A read is answered by the writer, and by another node only where the call takes
/// what may be old and the node lets replicas answer.
pub proof fn law_reads_are_answered(
    state: HaSharedState,
    now_secs: u64,
    consistency: ConsistencyLevel,
)
    ensures
        state.writes_at(now_secs) ==> may_read(state, now_secs, consistency),
        !state.writes_at(now_secs) ==> (may_read(state, now_secs, consistency) <==> consistency
            == ConsistencyLevel::Eventual && state.allow_replica_reads),
        effective_consistency(None) == ConsistencyLevel::Strong,
        effective_consistency(Some(consistency)) == consistency,
{
}

/// The writer lets in every read with a statement, with its generation, and not as a
/// replica; a replica that may answer does so as one.
pub proof fn law_admitted_reads_are_let_in(
    r: Result<AdmittedQuery, Status>,
    state: HaSharedState,
    now_secs: u64,
    consistency: Option<ConsistencyLevel>,
    statement: Statement,
    missing: Seq<char>,
)
    requires
        query_admission(r, state, now_secs, consistency, Some(statement), missing),
        state.writes_at(now_secs) || (consistency == Some(ConsistencyLevel::Eventual)
            && state.allow_replica_reads),
    ensures
        r matches Ok(q) && q.statement == statement && q.generation == state.generation
            && q.is_replica_read == !state.writes_at(now_secs),
{
}

/// A node that is not the writer tells its generation and who the writer is, where it
/// knows that and can send it.
pub proof fn law_redirect_tells_generation_and_leader(status: Status, state: HaSharedState)
    requires
        is_redirect(status, state),
    ensures
        status.code == Code::FailedPrecondition,
        rpc::header_of(status.headers(), "x-rsqlite-generation"@) == Some(
            vstd::utf8::encode_utf8(text::decimal(state.generation as nat)),
        ),
        rpc::header_of(status.headers(), "x-rsqlite-leader-id"@) == (match state.active_leader_id {
            Some(id) => if rpc::sendable(vstd::utf8::encode_utf8(id@)) {
                Some(vstd::utf8::encode_utf8(id@))
            } else {
                None
            },
            None => None,
        }),
        rpc::header_of(status.headers(), "x-rsqlite-code"@) == Some(
            vstd::utf8::encode_utf8("NOT_LEADER"@),
        ),
{
    lemma_code_is_sendable();
    reveal_strlit("x-rsqlite-code");
    reveal_strlit("x-rsqlite-leader-id");
    reveal_strlit("x-rsqlite-generation");
    reveal_strlit("x-rsqlite-leader-endpoint");
    let code = entry(proto::HEADER_RSQLITE_CODE@, Some(proto::CODE_NOT_LEADER@));
    let id = entry(proto::HEADER_RSQLITE_LEADER_ID@, text::opt_view(state.active_leader_id));
    let digits = text::decimal(state.generation as nat);
    let generation = entry(proto::HEADER_RSQLITE_GENERATION@, Some(digits));
    let endpoint = entry(
        proto::HEADER_RSQLITE_LEADER_ENDPOINT@,
        text::opt_view(state.active_leader_endpoint),
    );
    text::lemma_decimal_round_trip(state.generation as nat);
    assert(rpc::visible_text(digits)) by {
        assert forall|i: int| 0 <= i < digits.len() implies (' ' <= #[trigger] digits[i]
            && digits[i] <= '~') || digits[i] == '\t' by {
            assert(text::is_digit(digits[i]));
        }
    }
    rpc::law_visible_text_survives(digits);
    assert(proto::HEADER_RSQLITE_CODE@.len() == 14);
    assert(proto::HEADER_RSQLITE_LEADER_ID@.len() == 19);
    assert(proto::HEADER_RSQLITE_GENERATION@.len() == 20);
    assert(proto::HEADER_RSQLITE_LEADER_ENDPOINT@.len() == 25);
    let all = redirect(state);
    assert(all =~= code + (id + (generation + endpoint)));
    assert(all[0] == code[0]);
    lemma_header_in_rest(code, id + (generation + endpoint), proto::HEADER_RSQLITE_LEADER_ID@);
    lemma_header_in_rest(code, id + (generation + endpoint), proto::HEADER_RSQLITE_GENERATION@);
    lemma_header_in_rest(id, generation + endpoint, proto::HEADER_RSQLITE_GENERATION@);
    assert((generation + endpoint)[0] == generation[0]);
    if id.len() == 0 {
        assert(id + (generation + endpoint) =~= generation + endpoint);
        lemma_header_in_rest(generation, endpoint, proto::HEADER_RSQLITE_LEADER_ID@);
        assert(endpoint + Seq::<HeaderView>::empty() =~= endpoint);
        lemma_header_in_rest(
            endpoint,
            Seq::<HeaderView>::empty(),
            proto::HEADER_RSQLITE_LEADER_ID@,
        );
    } else {
        assert((id + (generation + endpoint))[0] == id[0]);
    }
}

/// A text that is not known is reported as an empty one.
pub proof fn law_unknown_texts_are_reported_empty(t: String)
    ensures
        text_or_empty(Some(t)) == t@,
        text_or_empty(None) == Seq::<char>::empty(),
{
}

/// A metadata entry is sent exactly if it has a value that can be sent.
pub proof fn law_entries_are_sent_with_their_values(name: Seq<char>, value: Seq<char>)
    ensures
        rpc::visible_text(value) ==> entry(name, Some(value)) == seq![
            HeaderView { name, value: vstd::utf8::encode_utf8(value) },
        ],
        entry(name, None) == Seq::<HeaderView>::empty(),
        !rpc::sendable(vstd::utf8::encode_utf8(value)) ==> entry(name, Some(value)) == Seq::<
            HeaderView,
        >::empty(),
{
    if rpc::visible_text(value) {
        rpc::law_visible_text_survives(value);
    }
}

/// A read without a statement is told so by a node that would answer it, and sent to
/// the writer by one that would not.
pub proof fn law_reads_without_a_statement_are_refused(
    r: Result<AdmittedQuery, Status>,
    state: HaSharedState,
    now_secs: u64,
    consistency: Option<ConsistencyLevel>,
    missing: Seq<char>,
)
    requires
        query_admission(r, state, now_secs, consistency, None, missing),
    ensures
        r matches Err(s) && if state.writes_at(now_secs) || (consistency == Some(
            ConsistencyLevel::Eventual,
        ) && state.allow_replica_reads) {
            s.code == Code::InvalidArgument && s.message@ == missing
        } else {
            s.code == Code::FailedPrecondition && s.message@ == "node is not the active writer"@
        },
{
}

/// A chunk has as many rows as a call asks for, and some where it does not say.
pub proof fn law_chunks_are_as_large_as_asked(requested: u32)
    ensures
        requested > 0 ==> chunk_rows(requested) == requested,
        chunk_rows(0) == 100,
        chunk_rows(requested) > 0,
{
}

/// A node reports to be the writer exactly while it may write.
pub proof fn law_reported_writer_may_write(state: HaSharedState, now_secs: u64)
    ensures
        reported_role(state, now_secs) == ReportedRole::Writer <==> state.writes_at(now_secs),
        reported_role(state, now_secs) == ReportedRole::Replica <==> !state.writes_at(now_secs),
{
}

/// A known mode is kept; any other is taken as deferred.
pub proof fn law_known_modes_are_kept(mode: BatchTransactionMode)
    ensures
        effective_mode(Some(mode)) == mode,
        effective_mode(None) == BatchTransactionMode::Deferred,
{
}

} // verus!
