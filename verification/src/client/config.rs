//! Configuration of the gateway client.
use vstd::prelude::*;

use crate::text;
use crate::time;
use crate::time::Duration;

verus! {

/// How the writer is found.
#[derive(Debug, Clone)]
#[non_exhaustive]
pub enum DiscoveryMode {
    /// It has this endpoint.
    Direct(String),
    /// It is one of these, asked in order; the first one where none says so.
    Candidates(Vec<String>),
    /// The caller's own resolver knows.
    Custom,
}

/// Texts with quotes and escapes, separated by commas.
pub open spec fn quoted_items(v: Seq<String>) -> Seq<Seq<char>> {
    Seq::new(v.len(), |i: int| text::quoted(v[i]@))
}

fn quoted_list(v: &Vec<String>) -> (r: String)
    ensures
        r@ == text::comma_list(quoted_items(v@)),
{
    let mut out: String = String::new();
    let mut i: usize = 0;
    assert(out@ == text::comma_list(quoted_items(v@.take(0))));
    while i < v.len()
        invariant
            i <= v@.len(),
            out@ == text::comma_list(quoted_items(v@.take(i as int))),
        decreases v@.len() - i,
    {
        let item: String = text::quote(v[i].as_str());
        text::append_item(&mut out, i, item.as_str());
        proof {
            text::lemma_comma_list_push(quoted_items(v@.take(i as int)), item@);
            assert(quoted_items(v@.take(i + 1)) == quoted_items(v@.take(i as int)).push(item@));
        }
        i = i + 1;
    }
    assert(v@.take(i as int) == v@);
    out
}

impl DiscoveryMode {
    /// The text of this mode in logs.
    pub fn debug_text(&self) -> (r: String)
        ensures
            r@ == match *self {
                DiscoveryMode::Direct(endpoint) => "Direct("@ + text::quoted(endpoint@) + ")"@,
                DiscoveryMode::Candidates(candidates) => "Candidates(["@ + text::comma_list(
                    quoted_items(candidates@),
                ) + "])"@,
                DiscoveryMode::Custom => "Custom(<resolver>)"@,
            },
    {
        match self {
            DiscoveryMode::Direct(endpoint) => {
                let mut s: String = "Direct(".to_owned();
                s.append(text::quote(endpoint.as_str()).as_str());
                s.append(")");
                s
            },
            DiscoveryMode::Candidates(candidates) => {
                let mut s: String = "Candidates([".to_owned();
                s.append(quoted_list(candidates).as_str());
                s.append("])");
                s
            },
            DiscoveryMode::Custom => "Custom(<resolver>)".to_owned(),
        }
    }
}

/// Where SQL is run.
#[derive(Debug, Clone)]
pub enum ClientTarget {
    /// By the nodes of a cluster.
    Remote { config: ClientConfig },
    /// In this process, on the databases of a directory.
    Local { data_dir: String },
}

/// How the place where SQL is run is chosen.
#[derive(Debug, Clone, Copy, PartialEq, Eq, Structural)]
pub enum RuntimeMode {
    Auto,
    Standalone,
    Cluster,
}

/// Settings of the gateway client.
#[derive(Debug, Clone)]
pub struct ClientConfig {
    /// How the writer is found.
    pub discovery: DiscoveryMode,
    /// The number of attempts of a call, the first one included.
    pub max_retries: usize,
    /// The wait after the first attempt, which doubles with each further one.
    pub initial_backoff_ms: u64,
    /// The longest wait.
    pub max_backoff_ms: u64,
    /// The limit on the time of a connection and of a call.
    pub timeout: Duration,
    /// The token that calls carry.
    pub auth_token: Option<String>,
}

impl ClientConfig {
    /// Default settings with this discovery mode.
    pub open spec fn with_mode(self, discovery: DiscoveryMode) -> bool {
        &&& self.discovery == discovery
        &&& self.max_retries == 5
        &&& self.initial_backoff_ms == 100
        &&& self.max_backoff_ms == 2000
        &&& self.timeout == Duration::of_secs(15)
        &&& self.auth_token is None
    }

    /// Default settings with this discovery mode.
    pub fn new(discovery: DiscoveryMode) -> (r: ClientConfig)
        ensures
            r.with_mode(discovery),
    {
        ClientConfig {
            discovery,
            max_retries: 5,
            initial_backoff_ms: 100,
            max_backoff_ms: 2000,
            timeout: Duration::from_secs(15),
            auth_token: None,
        }
    }

    /// These settings with another number of attempts.
    pub fn with_max_retries(self, max_retries: usize) -> (r: ClientConfig)
        ensures
            r == (ClientConfig { max_retries, ..self }),
    {
        let mut config: ClientConfig = self;
        config.max_retries = max_retries;
        config
    }

    /// These settings with another first wait.
    pub fn with_initial_backoff(self, backoff: Duration) -> (r: ClientConfig)
        ensures
            r == (ClientConfig { initial_backoff_ms: time::low64(backoff.millis()), ..self }),
    {
        let mut config: ClientConfig = self;
        config.initial_backoff_ms = backoff.millis_low64();
        config
    }

    /// These settings with another longest wait.
    pub fn with_max_backoff(self, backoff: Duration) -> (r: ClientConfig)
        ensures
            r == (ClientConfig { max_backoff_ms: time::low64(backoff.millis()), ..self }),
    {
        let mut config: ClientConfig = self;
        config.max_backoff_ms = backoff.millis_low64();
        config
    }

    /// These settings with another time limit.
    pub fn with_timeout(self, timeout: Duration) -> (r: ClientConfig)
        ensures
            r == (ClientConfig { timeout, ..self }),
    {
        let mut config: ClientConfig = self;
        config.timeout = timeout;
        config
    }

    /// These settings with a token.
    pub fn with_auth_token(self, token: &str) -> (r: ClientConfig)
        ensures
            r == (ClientConfig { auth_token: r.auth_token, ..self }),
            text::opt_view(r.auth_token) == Some(token@),
    {
        let mut config: ClientConfig = self;
        config.auth_token = Some(token.to_owned());
        config
    }
}

impl Default for ClientConfig {
    /// Default settings for a gateway on this machine.
    fn default() -> (r: ClientConfig)
        ensures
            r.with_mode(r.discovery),
            r.discovery matches DiscoveryMode::Direct(endpoint) && endpoint@
                == "http://127.0.0.1:50051"@,
    {
        ClientConfig::new(DiscoveryMode::Direct("http://127.0.0.1:50051".to_owned()))
    }
}

/// The settings from which a pool makes its clients.
#[derive(Clone)]
pub struct SqlGatewayManager {
    config: ClientConfig,
}

impl SqlGatewayManager {
    /// The settings of the clients.
    pub closed spec fn settings(self) -> ClientConfig {
        self.config
    }

    /// A manager of clients with these settings.
    pub fn new(config: ClientConfig) -> (r: SqlGatewayManager)
        ensures
            r.settings() == config,
    {
        SqlGatewayManager { config }
    }

    /// The settings of the clients.
    pub fn config(&self) -> (r: &ClientConfig)
        ensures
            *r == self.settings(),
    {
        &self.config
    }

    /// The text of a manager in logs, which never holds a token.
    pub fn debug_text(&self) -> (r: String)
        ensures
            r@ == "SqlGatewayManager"@,
    {
        "SqlGatewayManager".to_owned()
    }
}

/// By default a call is attempted five times, with waits from a tenth of a second to
/// two seconds, within a quarter of a minute each, and carries no token.
pub proof fn law_default_settings(config: ClientConfig, discovery: DiscoveryMode)
    requires
        config.with_mode(discovery),
    ensures
        config.discovery == discovery,
        config.max_retries == 5,
        config.initial_backoff_ms == 100,
        config.max_backoff_ms == 2000,
        config.timeout.millis() == 15000,
        config.auth_token is None,
{
    Duration::law_span_of_secs(15);
}

/// The candidates of a mode are shown with quotes, each in its place.
pub proof fn law_candidates_are_shown_with_quotes(v: Seq<String>, i: int)
    ensures
        quoted_items(v).len() == v.len(),
        0 <= i < v.len() ==> quoted_items(v)[i] == text::quoted(v[i]@),
{
}

} // verus!
