//! The choices of the command line of the client.
use vstd::prelude::*;

use crate::client::config::{ClientConfig, ClientTarget, DiscoveryMode};
use crate::error::{Result, SyncError};
use crate::gateway::client::{Client, ClientBackend};
use crate::ha::kube;
use crate::ha::kube::KubectlLeaseReader;
use crate::ha::policy::LeaseRecord;
use crate::ha::records;
use crate::ha::records::endpoint_of_holder;
use crate::proto::{BatchTransactionMode, ConsistencyLevel};
use crate::text;
use crate::time::Duration;

verus! {

/// Where the client runs SQL.
#[derive(Debug, Clone, Copy, PartialEq, Eq, Structural)]
pub enum CliRuntimeMode {
    /// As the other choices suggest.
    Auto,
    /// In this process.
    Local,
    /// By the nodes of a cluster.
    Cluster,
}

impl Default for CliRuntimeMode {
    fn default() -> (r: CliRuntimeMode)
        ensures
            r == CliRuntimeMode::Auto,
    {
        CliRuntimeMode::Auto
    }
}

/// How results are shown.
#[derive(Debug, Clone, Copy, PartialEq, Eq, Structural)]
pub enum OutputFormat {
    Table,
    Json,
    Csv,
    Tsv,
    Raw,
}

/// How the statements of a batch are put into a transaction.
#[derive(Debug, Clone, Copy, PartialEq, Eq, Structural)]
pub enum CliTxMode {
    Deferred,
    Immediate,
    Exclusive,
    NoTransaction,
}

impl From<CliTxMode> for BatchTransactionMode {
    fn from(mode: CliTxMode) -> (r: BatchTransactionMode) {
        match mode {
            CliTxMode::Deferred => BatchTransactionMode::Deferred,
            CliTxMode::Immediate => BatchTransactionMode::Immediate,
            CliTxMode::Exclusive => BatchTransactionMode::Exclusive,
            CliTxMode::NoTransaction => BatchTransactionMode::NoTransaction,
        }
    }
}

impl vstd::std_specs::convert::FromSpecImpl<CliTxMode> for BatchTransactionMode {
    open spec fn obeys_from_spec() -> bool {
        true
    }

    open spec fn from_spec(mode: CliTxMode) -> BatchTransactionMode {
        match mode {
            CliTxMode::Deferred => BatchTransactionMode::Deferred,
            CliTxMode::Immediate => BatchTransactionMode::Immediate,
            CliTxMode::Exclusive => BatchTransactionMode::Exclusive,
            CliTxMode::NoTransaction => BatchTransactionMode::NoTransaction,
        }
    }
}

/// How fresh the data of a query has to be.
#[derive(Debug, Clone, Copy, PartialEq, Eq, Structural)]
pub enum CliConsistency {
    Strong,
    Eventual,
}

impl From<CliConsistency> for ConsistencyLevel {
    fn from(c: CliConsistency) -> (r: ConsistencyLevel) {
        match c {
            CliConsistency::Strong => ConsistencyLevel::Strong,
            CliConsistency::Eventual => ConsistencyLevel::Eventual,
        }
    }
}

impl vstd::std_specs::convert::FromSpecImpl<CliConsistency> for ConsistencyLevel {
    open spec fn obeys_from_spec() -> bool {
        true
    }

    open spec fn from_spec(c: CliConsistency) -> ConsistencyLevel {
        match c {
            CliConsistency::Strong => ConsistencyLevel::Strong,
            CliConsistency::Eventual => ConsistencyLevel::Eventual,
        }
    }
}

/// How the client connects.
#[derive(Debug, Clone)]
pub struct ClientConnectionArgs {
    pub mode: CliRuntimeMode,
    pub data_dir: Option<String>,
    pub endpoint: Option<String>,
    pub endpoints: Vec<String>,
    pub kube_lease: Option<String>,
    pub kube_namespace: String,
    pub kube_service: String,
    pub kube_context: Option<String>,
    pub kubeconfig: Option<String>,
    pub kubectl_path: String,
    pub grpc_port: u16,
    pub max_retries: usize,
    pub timeout: u64,
    pub token: Option<String>,
}

/// The environment variables that have a say in how the client connects.
#[derive(Debug, Clone)]
pub struct ConnectionEnv {
    /// `RSQLITE_DATA_DIR`
    pub data_dir: Option<String>,
    /// `RSQLITE_ENDPOINT`
    pub endpoint: Option<String>,
    /// `RSQLITE_ENDPOINTS`
    pub endpoints: Option<String>,
    /// `RSQLITE_KUBE_LEASE`
    pub kube_lease: Option<String>,
}

// ---------------------------------------------------------------------------
// Blank choices
// ---------------------------------------------------------------------------

/// The trimmed text of an option, where it is not blank.
pub open spec fn non_blank(s: Option<String>) -> Option<Seq<char>> {
    match s {
        Some(t) => if text::trimmed(t@).len() > 0 {
            Some(text::trimmed(t@))
        } else {
            None
        },
        None => None,
    }
}

/// The trimmed texts of those that are not blank.
pub open spec fn non_blank_texts(v: Seq<String>) -> Seq<Seq<char>>
    decreases v.len(),
{
    if v.len() == 0 {
        Seq::empty()
    } else {
        let t = text::trimmed(v.last()@);
        if t.len() > 0 {
            non_blank_texts(v.drop_last()).push(t)
        } else {
            non_blank_texts(v.drop_last())
        }
    }
}

fn given(s: &Option<String>) -> (r: Option<String>)
    ensures
        text::opt_view(r) == non_blank(*s),
{
    match s {
        Some(t) => {
            let trimmed: String = text::trim(t.as_str());
            if trimmed.as_str().is_empty() {
                None
            } else {
                Some(trimmed)
            }
        },
        None => None,
    }
}

fn given_all(v: &Vec<String>) -> (r: Vec<String>)
    ensures
        text::views(r@) == non_blank_texts(v@),
{
    let mut out: Vec<String> = Vec::new();
    let mut i: usize = 0;
    assert(text::views(out@) =~= non_blank_texts(v@.take(0)));
    while i < v.len()
        invariant
            i <= v@.len(),
            text::views(out@) == non_blank_texts(v@.take(i as int)),
        decreases v@.len() - i,
    {
        let ghost before = out@;
        let trimmed: String = text::trim(v[i].as_str());
        assert(v@.take(i + 1).drop_last() == v@.take(i as int));
        assert(v@.take(i + 1).last() == v@[i as int]);
        if !trimmed.as_str().is_empty() {
            out.push(trimmed);
            assert(text::views(out@) =~= text::views(before).push(trimmed@));
        }
        i = i + 1;
    }
    assert(v@.take(i as int) == v@);
    out
}

// ---------------------------------------------------------------------------
// Settings of the client
// ---------------------------------------------------------------------------

/// How the writer is found, as plain data.
#[verifier::ext_equal]
pub enum DiscoveryView {
    Direct(Seq<char>),
    Candidates(Seq<Seq<char>>),
    Custom,
}

/// What a discovery mode holds.
pub open spec fn discovery_view(mode: DiscoveryMode) -> DiscoveryView {
    match mode {
        DiscoveryMode::Direct(e) => DiscoveryView::Direct(e@),
        DiscoveryMode::Candidates(c) => DiscoveryView::Candidates(text::views(c@)),
        DiscoveryMode::Custom => DiscoveryView::Custom,
    }
}

impl ClientConnectionArgs {
    /// How the writer is found: at the endpoint given, by the Kubernetes lease, or
    /// among the candidates, in this order; and else on this machine.
    pub open spec fn discovery(self) -> DiscoveryView {
        if non_blank(self.endpoint) is Some {
            DiscoveryView::Direct(non_blank(self.endpoint)->0)
        } else if non_blank(self.kube_lease) is Some {
            DiscoveryView::Custom
        } else if non_blank_texts(self.endpoints@).len() > 0 {
            DiscoveryView::Candidates(non_blank_texts(self.endpoints@))
        } else {
            DiscoveryView::Direct("http://127.0.0.1:50051"@)
        }
    }

    /// Whether these are the settings of the client.
    pub open spec fn configures(self, config: ClientConfig) -> bool {
        &&& discovery_view(config.discovery) == self.discovery()
        &&& config.max_retries == self.max_retries
        &&& config.initial_backoff_ms == 100
        &&& config.max_backoff_ms == 2000
        &&& config.timeout == Duration::of_secs(self.timeout)
        &&& text::opt_view(config.auth_token) == non_blank(self.token)
    }

    /// Whether a way to a cluster is given.
    pub open spec fn points_to_cluster(self) -> bool {
        non_blank(self.endpoint) is Some || non_blank_texts(self.endpoints@).len() > 0 || non_blank(
            self.kube_lease,
        ) is Some
    }

    /// The directory on whose databases SQL is run in this process, where it is.
    pub open spec fn local_dir(self, env: ConnectionEnv) -> Option<Seq<char>> {
        match self.mode {
            CliRuntimeMode::Local => match self.data_dir {
                Some(dir) => Some(dir@),
                None => non_blank(env.data_dir),
            },
            CliRuntimeMode::Cluster => None,
            CliRuntimeMode::Auto => if self.points_to_cluster() {
                None
            } else {
                match self.data_dir {
                    Some(dir) => Some(dir@),
                    None => if non_blank(env.endpoint) is None && non_blank(env.endpoints) is None
                        && non_blank(env.kube_lease) is None {
                        non_blank(env.data_dir)
                    } else {
                        None
                    },
                }
            },
        }
    }

    /// The settings of the client.
    pub fn to_client_config(&self) -> (r: ClientConfig)
        ensures
            self.configures(r),
    {
        let candidates: Vec<String> = given_all(&self.endpoints);
        assert(text::views(candidates@).len() == candidates@.len());
        let discovery: DiscoveryMode = match given(&self.endpoint) {
            Some(endpoint) => DiscoveryMode::Direct(endpoint),
            None => match given(&self.kube_lease) {
                Some(_) => DiscoveryMode::Custom,
                None => if candidates.len() > 0 {
                    DiscoveryMode::Candidates(candidates)
                } else {
                    DiscoveryMode::Direct("http://127.0.0.1:50051".to_owned())
                },
            },
        };
        ClientConfig {
            discovery,
            max_retries: self.max_retries,
            initial_backoff_ms: 100,
            max_backoff_ms: 2000,
            timeout: Duration::from_secs(self.timeout),
            auth_token: given(&self.token),
        }
    }

    /// Where SQL is run.
    pub fn to_client_target(&self, env: &ConnectionEnv) -> (r: Result<ClientTarget>)
        ensures
            match r {
                Ok(ClientTarget::Local { data_dir }) => self.local_dir(*env) == Some(data_dir@),
                Ok(ClientTarget::Remote { config }) => self.mode != CliRuntimeMode::Local
                    && self.local_dir(*env) is None && self.configures(config),
                Err(e) => self.mode == CliRuntimeMode::Local && self.local_dir(*env) is None
                    && e.is_protocol(
                    "local mode requires a data directory via --data-dir (-D) or RSQLITE_DATA_DIR"@,
                ),
            },
    {
        match self.mode {
            CliRuntimeMode::Local => {
                match &self.data_dir {
                    Some(dir) => {
                        return Ok(ClientTarget::Local { data_dir: dir.clone() });
                    },
                    None => {},
                }
                match given(&env.data_dir) {
                    Some(data_dir) => Ok(ClientTarget::Local { data_dir }),
                    None => Err(
                        SyncError::protocol(
                            "local mode requires a data directory via --data-dir (-D) or RSQLITE_DATA_DIR",
                        ),
                    ),
                }
            },
            CliRuntimeMode::Cluster => Ok(
                ClientTarget::Remote { config: self.to_client_config() },
            ),
            CliRuntimeMode::Auto => {
                let candidates: Vec<String> = given_all(&self.endpoints);
                assert(text::views(candidates@).len() == candidates@.len());
                if given(&self.endpoint).is_some() || candidates.len() > 0 || given(
                    &self.kube_lease,
                ).is_some() {
                    return Ok(ClientTarget::Remote { config: self.to_client_config() });
                }
                match &self.data_dir {
                    Some(dir) => {
                        return Ok(ClientTarget::Local { data_dir: dir.clone() });
                    },
                    None => {},
                }
                if given(&env.endpoint).is_none() && given(&env.endpoints).is_none() && given(
                    &env.kube_lease,
                ).is_none() {
                    match given(&env.data_dir) {
                        Some(data_dir) => {
                            return Ok(ClientTarget::Local { data_dir });
                        },
                        None => {},
                    }
                }
                Ok(ClientTarget::Remote { config: self.to_client_config() })
            },
        }
    }

    /// The client for these choices.
    pub fn to_client(&self, env: &ConnectionEnv) -> (r: Result<Client>)
        ensures
            match r {
                Ok(client) => match client.place() {
                    ClientBackend::Local(engine) => self.local_dir(*env) == Some(engine.root()),
                    ClientBackend::Remote(remote) => self.mode != CliRuntimeMode::Local
                        && self.local_dir(*env) is None && self.configures(remote.settings())
                        && remote.endpoint() is None && !remote.is_up(),
                },
                Err(e) => self.mode == CliRuntimeMode::Local && self.local_dir(*env) is None
                    && e.is_protocol(
                    "local mode requires a data directory via --data-dir (-D) or RSQLITE_DATA_DIR"@,
                ),
            },
    {
        match self.to_client_target(env) {
            Err(e) => Err(e),
            Ok(target) => Ok(Client::new(target)),
        }
    }

    /// What resolves the writer by the Kubernetes lease, where the settings ask
    /// for it.
    pub fn to_kube_resolver(&self) -> (r: Option<KubeLeaseResolver>)
        ensures
            match r {
                Some(k) => self.discovery() is Custom && k.lease_reader() == (kube::KubectlView {
                    kubectl_path: self.kubectl_path@,
                    namespace: self.kube_namespace@,
                    lease_name: non_blank(self.kube_lease)->0,
                    kube_context: text::opt_view(self.kube_context),
                    kubeconfig: text::opt_view(self.kubeconfig),
                }) && k.service() == self.kube_service@ && k.port() == self.grpc_port,
                None => !(self.discovery() is Custom),
            },
    {
        if given(&self.endpoint).is_some() {
            return None;
        }
        match given(&self.kube_lease) {
            None => None,
            Some(lease_name) => {
                let mut reader: KubectlLeaseReader = KubectlLeaseReader::new(
                    self.kubectl_path.as_str(),
                    self.kube_namespace.as_str(),
                    lease_name.as_str(),
                );
                reader.set_kube_context(self.kube_context.clone());
                reader.set_kubeconfig(self.kubeconfig.clone());
                Some(
                    KubeLeaseResolver {
                        reader,
                        service_name: self.kube_service.clone(),
                        grpc_port: self.grpc_port,
                    },
                )
            },
        }
    }
}

/// In local mode SQL is never run by a cluster, and in cluster mode never in this
/// process.
pub proof fn law_mode_is_respected(args: ClientConnectionArgs, env: ConnectionEnv)
    ensures
        args.mode == CliRuntimeMode::Cluster ==> args.local_dir(env) is None,
        args.mode == CliRuntimeMode::Auto && args.points_to_cluster() ==> args.local_dir(
            env,
        ) is None,
        args.mode != CliRuntimeMode::Cluster && args.data_dir is Some && !args.points_to_cluster()
            ==> args.local_dir(env) == Some(args.data_dir->0@),
{
}

// ---------------------------------------------------------------------------
// Kubernetes
// ---------------------------------------------------------------------------

/// What resolves the writer by a Kubernetes lease.
#[derive(Debug)]
pub struct KubeLeaseResolver {
    reader: KubectlLeaseReader,
    service_name: String,
    grpc_port: u16,
}

impl KubeLeaseResolver {
    /// The reader of the lease.
    pub closed spec fn lease_reader(self) -> kube::KubectlView {
        self.reader@
    }

    /// The name of the service under which the nodes are known.
    pub closed spec fn service(self) -> Seq<char> {
        self.service_name@
    }

    /// The port of the gateway of a node.
    pub closed spec fn port(self) -> u16 {
        self.grpc_port
    }

    /// The reader of the lease.
    pub fn reader(&self) -> (r: &KubectlLeaseReader)
        ensures
            r@ == self.lease_reader(),
    {
        &self.reader
    }

    /// The endpoint of the writer, from the lease.
    pub fn endpoint_of(&self, lease: &Option<LeaseRecord>) -> (r: core::result::Result<
        String,
        String,
    >)
        ensures
            match *lease {
                Some(l) => r matches Ok(e) && e@ == records::holder_endpoint(
                    l.holder_node_id@,
                    self.service(),
                    self.port(),
                ),
                None => r matches Err(m) && m@ == "k8s lease has no active holder"@,
            },
    {
        match lease {
            None => Err("k8s lease has no active holder".to_owned()),
            Some(l) => Ok(
                endpoint_of_holder(
                    l.holder_node_id.as_str(),
                    self.service_name.as_str(),
                    self.grpc_port,
                ),
            ),
        }
    }
}

// ---------------------------------------------------------------------------
// Commands
// ---------------------------------------------------------------------------

/// The commands of the client.
#[derive(Debug, Clone)]
pub enum ClientCommand {
    Exec { database: String, sql: String, params: Vec<String> },
    Query {
        database: String,
        sql: String,
        params: Vec<String>,
        format: OutputFormat,
        max_rows: u32,
        consistency: CliConsistency,
    },
    Batch {
        database: String,
        file: Option<String>,
        sql: Option<String>,
        tx_mode: CliTxMode,
        stop_on_error: bool,
    },
    Status { format: OutputFormat },
    Repl { database: String, format: OutputFormat },
    DropDatabase { database: String, yes: bool },
}

/// Where the script of a batch comes from.
#[derive(Debug)]
pub enum ScriptSource {
    /// It is in this file.
    File(String),
    /// It is this text.
    Text(String),
}

/// Where the script of a batch comes from: the file where one is given, and else
/// the text.
pub fn script_source(file: &Option<String>, sql: &Option<String>) -> (r: Result<ScriptSource>)
    ensures
        match (*file, *sql) {
            (Some(path), _) => r == Ok::<ScriptSource, SyncError>(ScriptSource::File(path)),
            (None, Some(s)) => r == Ok::<ScriptSource, SyncError>(ScriptSource::Text(s)),
            (None, None) => r matches Err(e) && e.is_protocol(
                "either --file or --sql must be provided for batch execution"@,
            ),
        },
{
    match file {
        Some(path) => Ok(ScriptSource::File(path.clone())),
        None => match sql {
            Some(s) => Ok(ScriptSource::Text(s.clone())),
            None => Err(
                SyncError::protocol("either --file or --sql must be provided for batch execution"),
            ),
        },
    }
}

/// The error of a script file that could not be read.
pub fn script_read_error(path: &str, error: &str) -> (r: SyncError)
    ensures
        r.is_protocol("failed to read SQL file "@ + path@ + ": "@ + error@),
{
    let mut m: String = "failed to read SQL file ".to_owned();
    m.append(path);
    m.append(": ");
    m.append(error);
    SyncError::Protocol(m)
}

/// What the user is asked before a database is deleted.
pub fn drop_question(database: &str) -> (r: String)
    ensures
        r@ == "This will permanently delete database '"@ + database@ + "'. Continue? [y/N] "@,
{
    let mut m: String = "This will permanently delete database '".to_owned();
    m.append(database);
    m.append("'. Continue? [y/N] ");
    m
}

/// Whether an answer in lower case is a yes.
pub open spec fn says_yes(lowered: Seq<char>) -> bool {
    lowered == "y"@ || lowered == "yes"@
}

/// Whether an answer in lower case is a yes.
pub fn is_yes(lowered: &str) -> (r: bool)
    ensures
        r == says_yes(lowered@),
        r == (lowered@ == "y"@ || lowered@ == "yes"@),
{
    let answer: String = lowered.to_owned();
    answer == "y".to_owned() || answer == "yes".to_owned()
}

/// Whether an answer is a yes.
pub fn confirms(input: &str) -> (r: bool)
    ensures
        r == says_yes(text::lowercased(text::trimmed(input@))),
        r == (text::lowercased(text::trimmed(input@)) == "y"@ || text::lowercased(
            text::trimmed(input@),
        ) == "yes"@),
{
    let trimmed: String = text::trim(input);
    let lowered: String = text::to_lowercase(trimmed.as_str());
    is_yes(lowered.as_str())
}

/// What is said after a database was dropped, or was found not to exist.
pub fn drop_report(database: &str, existed: bool, generation: u64) -> (r: String)
    ensures
        r@ == if existed {
            "Dropped database '"@ + database@ + "' (generation "@ + text::decimal(
                generation as nat,
            ) + ")."@
        } else {
            "Database '"@ + database@ + "' did not exist."@
        },
{
    if existed {
        let mut m: String = "Dropped database '".to_owned();
        m.append(database);
        m.append("' (generation ");
        m.append(text::u64_text(generation).as_str());
        m.append(").");
        m
    } else {
        let mut m: String = "Database '".to_owned();
        m.append(database);
        m.append("' did not exist.");
        m
    }
}

// ---------------------------------------------------------------------------
// What the choices come to
// ---------------------------------------------------------------------------

/// A choice counts without the white space around it, and does not count where
/// nothing else is left.
pub proof fn law_blank_choices_do_not_count(s: String, pre: Seq<char>, t: Seq<char>, post: Seq<char>)
    requires
        s@ == pre + t + post,
        text::all_spaces(pre),
        text::all_spaces(post),
        t.len() > 0 ==> !text::is_space(t[0]) && !text::is_space(t.last()),
    ensures
        non_blank(Some(s)) == if t.len() > 0 {
            Some(t)
        } else {
            None
        },
        non_blank(None) is None,
{
    text::law_trimming_takes_the_surrounding_space(pre, t, post);
}

/// Of several choices those count that are not blank, in their order.
pub proof fn law_blank_texts_are_left_out(first: Seq<String>, one: String, second: Seq<String>)
    ensures
        non_blank_texts(first + seq![one] + second) == non_blank_texts(first) + (match non_blank(
            Some(one),
        ) {
            Some(t) => seq![t],
            None => Seq::empty(),
        }) + non_blank_texts(second),
        non_blank_texts(Seq::empty()) == Seq::<Seq<char>>::empty(),
    decreases second.len(),
{
    let all = first + seq![one] + second;
    let middle = match non_blank(Some(one)) {
        Some(t) => seq![t],
        None => Seq::<Seq<char>>::empty(),
    };
    if second.len() == 0 {
        assert(all.drop_last() =~= first);
        assert(all.last() == one);
        assert(non_blank_texts(all) =~= non_blank_texts(first) + middle + non_blank_texts(second));
    } else {
        assert(all.drop_last() =~= first + seq![one] + second.drop_last());
        assert(all.last() == second.last());
        law_blank_texts_are_left_out(first, one, second.drop_last());
        assert(non_blank_texts(all) =~= non_blank_texts(first) + middle + non_blank_texts(second));
    }
}

/// An endpoint that is given is used; without one the lease is asked, without that
/// the candidates, and without these the gateway on this machine.
pub proof fn law_writer_is_looked_for_where_it_is_given(args: ClientConnectionArgs)
    ensures
        ({
            let endpoint = non_blank(args.endpoint);
            let lease = non_blank(args.kube_lease);
            let candidates = non_blank_texts(args.endpoints@);
            &&& endpoint is Some ==> args.discovery() == DiscoveryView::Direct(endpoint->0)
            &&& endpoint is None && lease is Some ==> args.discovery() is Custom
            &&& endpoint is None && lease is None && candidates.len() > 0 ==> args.discovery()
                == DiscoveryView::Candidates(candidates)
            &&& endpoint is None && lease is None && candidates.len() == 0 ==> args.discovery()
                == DiscoveryView::Direct("http://127.0.0.1:50051"@)
            &&& args.points_to_cluster() <==> endpoint is Some || lease is Some || candidates.len()
                > 0
        }),
{
}

/// In local mode the directory given is used, and without one that of the
/// environment, where it names one.
pub proof fn law_local_mode_uses_its_directory(args: ClientConnectionArgs, env: ConnectionEnv)
    requires
        args.mode == CliRuntimeMode::Local,
    ensures
        args.data_dir matches Some(dir) ==> args.local_dir(env) == Some(dir@),
        args.data_dir is None ==> args.local_dir(env) == non_blank(env.data_dir),
{
}

/// Without a mode and without a way to a cluster, the directory of the environment is
/// used only where the environment does not point to a cluster either.
pub proof fn law_environment_has_the_last_word(args: ClientConnectionArgs, env: ConnectionEnv)
    requires
        args.mode == CliRuntimeMode::Auto,
        !args.points_to_cluster(),
        args.data_dir is None,
    ensures
        non_blank(env.endpoint) is Some || non_blank(env.endpoints) is Some || non_blank(
            env.kube_lease,
        ) is Some ==> args.local_dir(env) is None,
        non_blank(env.endpoint) is None && non_blank(env.endpoints) is None && non_blank(
            env.kube_lease,
        ) is None ==> args.local_dir(env) == non_blank(env.data_dir),
{
}

/// The settings of the client are those of the choices: the attempts, the time limit
/// and the token as given, and the waits as usual.
pub proof fn law_choices_become_settings(args: ClientConnectionArgs, config: ClientConfig)
    requires
        args.configures(config),
    ensures
        config.max_retries == args.max_retries,
        config.timeout.millis() == args.timeout * 1000,
        config.initial_backoff_ms == 100,
        config.max_backoff_ms == 2000,
        config.auth_token is Some <==> non_blank(args.token) is Some,
        config.auth_token matches Some(t) ==> non_blank(args.token) == Some(t@),
        config.discovery matches DiscoveryMode::Direct(e) ==> args.discovery()
            == DiscoveryView::Direct(e@),
        config.discovery is Custom <==> args.discovery() is Custom,
{
    Duration::law_span_of_secs(args.timeout);
}

/// The modes of the command line are those of the gateway of the same name.
pub proof fn law_modes_keep_their_names()
    ensures
        <BatchTransactionMode as vstd::std_specs::convert::FromSpec<CliTxMode>>::from_spec(
            CliTxMode::Deferred,
        ) == BatchTransactionMode::Deferred,
        <BatchTransactionMode as vstd::std_specs::convert::FromSpec<CliTxMode>>::from_spec(
            CliTxMode::Immediate,
        ) == BatchTransactionMode::Immediate,
        <BatchTransactionMode as vstd::std_specs::convert::FromSpec<CliTxMode>>::from_spec(
            CliTxMode::Exclusive,
        ) == BatchTransactionMode::Exclusive,
        <BatchTransactionMode as vstd::std_specs::convert::FromSpec<CliTxMode>>::from_spec(
            CliTxMode::NoTransaction,
        ) == BatchTransactionMode::NoTransaction,
        <ConsistencyLevel as vstd::std_specs::convert::FromSpec<CliConsistency>>::from_spec(
            CliConsistency::Strong,
        ) == ConsistencyLevel::Strong,
        <ConsistencyLevel as vstd::std_specs::convert::FromSpec<CliConsistency>>::from_spec(
            CliConsistency::Eventual,
        ) == ConsistencyLevel::Eventual,
{
}

/// Only a `y` or a `yes` is a yes: no other answer, and not the empty one, deletes
/// anything.
pub proof fn law_only_a_yes_confirms(lowered: Seq<char>)
    ensures
        says_yes("y"@),
        says_yes("yes"@),
        !says_yes(Seq::empty()),
        says_yes(lowered) ==> lowered[0] == 'y' && (lowered.len() == 1 || lowered.len() == 3
            && lowered[1] == 'e' && lowered[2] == 's'),
{
    reveal_strlit("y");
    reveal_strlit("yes");
    assert("y"@.len() == 1 && "yes"@.len() == 3);
}

} // verus!
