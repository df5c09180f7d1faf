//! What the program does with its arguments.
use vstd::prelude::*;

use crate::batch::{BatchItemResult, BatchRunReport, BatchRuntimeOptions};
use crate::endpoint;
use crate::endpoint::SyncRoute;
use crate::error::{Result, SyncError};
use crate::ssh::{SshAuthMode, SshConnectOptions};
use crate::text;
use crate::time::Duration;
use crate::tuning::SyncTuning;

verus! {

/// The arguments that decide what the program does.
#[derive(Debug, Clone)]
pub struct ModeArgs {
    pub origin: Option<String>,
    pub replica: Option<String>,
    pub batch_manifest: Option<String>,
    pub ha: bool,
    pub server: bool,
    pub server_origin: bool,
    pub server_replica: bool,
}

/// What the program does.
#[derive(Debug)]
pub enum Mode {
    /// Synchronise the databases of a manifest.
    Batch,
    /// Serve as a node of a cluster.
    Ha,
    /// Be the replica of a synchronisation over the standard streams.
    ServeReplica(String),
    /// Be the origin of a synchronisation over the standard streams.
    ServeOrigin(String),
    /// Synchronise two databases.
    Sync(SyncRoute),
}

/// Why the program does nothing.
pub open spec fn mode_refusal(args: ModeArgs) -> Option<Seq<char>> {
    if args.batch_manifest is Some || args.ha {
        None
    } else if args.origin is None {
        Some("ORIGIN is required unless --ha or a client subcommand is set"@)
    } else if args.server_replica || args.server || args.server_origin {
        None
    } else if args.replica is None {
        Some("REPLICA is required unless --server is set"@)
    } else if endpoint::endpoint_of(args.origin->0@) is Remote && endpoint::endpoint_of(
        args.replica->0@,
    ) is Remote {
        Some("at least one of ORIGIN or REPLICA must be local"@)
    } else {
        None
    }
}

/// Whether this is what the program does.
pub open spec fn is_mode(mode: Mode, args: ModeArgs) -> bool {
    if args.batch_manifest is Some {
        mode is Batch
    } else if args.ha {
        mode is Ha
    } else if args.server_replica {
        mode matches Mode::ServeReplica(path) && path@ == args.origin->0@
    } else if args.server || args.server_origin {
        mode matches Mode::ServeOrigin(path) && path@ == args.origin->0@
    } else {
        mode matches Mode::Sync(route) && endpoint::routes(
            route,
            endpoint::endpoint_of(args.origin->0@),
            endpoint::endpoint_of(args.replica->0@),
        )
    }
}

/// What the program does with these arguments.
pub fn choose_mode(args: &ModeArgs) -> (r: Result<Mode>)
    ensures
        match r {
            Ok(mode) => mode_refusal(*args) is None && is_mode(mode, *args),
            Err(e) => mode_refusal(*args) is Some && e.is_protocol(mode_refusal(*args)->0),
        },
{
    if args.batch_manifest.is_some() {
        return Ok(Mode::Batch);
    }
    if args.ha {
        return Ok(Mode::Ha);
    }
    let origin: &String = match &args.origin {
        None => {
            return Err(
                SyncError::protocol("ORIGIN is required unless --ha or a client subcommand is set"),
            );
        },
        Some(s) => s,
    };
    if args.server_replica {
        return Ok(Mode::ServeReplica(origin.clone()));
    }
    if args.server || args.server_origin {
        return Ok(Mode::ServeOrigin(origin.clone()));
    }
    let replica: &String = match &args.replica {
        None => {
            return Err(SyncError::protocol("REPLICA is required unless --server is set"));
        },
        Some(s) => s,
    };
    match SyncRoute::between(origin.as_str(), replica.as_str()) {
        Ok(route) => Ok(Mode::Sync(route)),
        Err(e) => Err(e),
    }
}

// ---------------------------------------------------------------------------
// Batches
// ---------------------------------------------------------------------------

/// The arguments of a batch run.
#[derive(Debug, Clone)]
pub struct BatchArgs {
    pub jobs: usize,
    pub dry_run: bool,
    pub retries: u32,
    pub timeout_secs: u64,
    pub retry_backoff_ms: u64,
    pub retry_backoff_max_ms: u64,
    pub retry_jitter_pct: u8,
    pub exe: String,
    pub ssh_opts: Vec<String>,
    pub ssh_auth: SshAuthMode,
    pub ssh_connect_timeout: u32,
}

/// Why a batch run is refused.
pub open spec fn batch_refusal(mode: ModeArgs, args: BatchArgs) -> Option<Seq<char>> {
    if mode.ha {
        Some("--batch-manifest cannot be used with --ha"@)
    } else if mode.server || mode.server_origin || mode.server_replica {
        Some("--batch-manifest cannot be used with --server flags"@)
    } else if mode.origin is Some || mode.replica is Some {
        Some("batch mode does not accept ORIGIN/REPLICA positional arguments"@)
    } else if args.jobs == 0 {
        Some("--batch-jobs must be greater than 0"@)
    } else if args.retry_jitter_pct > 100 {
        Some("--batch-retry-jitter-pct must be between 0 and 100"@)
    } else if args.retry_backoff_max_ms > 0 && args.retry_backoff_ms > 0
        && args.retry_backoff_max_ms < args.retry_backoff_ms {
        Some("--batch-retry-backoff-max-ms must be >= --batch-retry-backoff-ms"@)
    } else if mode.batch_manifest is None {
        Some("--batch-manifest is required in batch mode"@)
    } else {
        None
    }
}

/// A span of milliseconds, where it is not zero.
pub open spec fn millis_or_none(ms: u64) -> Option<Duration> {
    if ms > 0 {
        Some(Duration::of_millis(ms))
    } else {
        None
    }
}

/// Whether these are the settings of a batch run.
pub open spec fn sets_up(o: BatchRuntimeOptions, args: BatchArgs, tuning: SyncTuning) -> bool {
    &&& o.jobs == args.jobs
    &&& o.default_dry_run == args.dry_run
    &&& o.default_retries == args.retries
    &&& o.default_timeout == if args.timeout_secs > 0 {
        Some(Duration::of_secs(args.timeout_secs))
    } else {
        None
    }
    &&& o.retry_backoff_base == millis_or_none(args.retry_backoff_ms)
    &&& o.retry_backoff_max == millis_or_none(args.retry_backoff_max_ms)
    &&& o.retry_jitter_pct == args.retry_jitter_pct
    &&& o.exe == args.exe
    &&& o.ssh_opts == args.ssh_opts
    &&& o.ssh_options.auth_mode == args.ssh_auth
    &&& o.ssh_options.connect_timeout_secs == if args.ssh_connect_timeout >= 1 {
        args.ssh_connect_timeout
    } else {
        1
    }
    &&& o.tuning == tuning
}

fn nonzero_millis(ms: u64) -> (r: Option<Duration>)
    ensures
        r == millis_or_none(ms),
{
    if ms > 0 {
        Some(Duration::from_millis(ms))
    } else {
        None
    }
}

/// The manifest and the settings of a batch run.
pub fn plan_batch(mode: &ModeArgs, args: BatchArgs, tuning: SyncTuning) -> (r: Result<
    (String, BatchRuntimeOptions),
>)
    ensures
        match r {
            Ok((path, options)) => batch_refusal(*mode, args) is None && text::opt_view(
                mode.batch_manifest,
            ) == Some(path@) && sets_up(options, args, tuning),
            Err(e) => batch_refusal(*mode, args) is Some && e.is_protocol(
                batch_refusal(*mode, args)->0,
            ),
        },
{
    if mode.ha {
        return Err(SyncError::protocol("--batch-manifest cannot be used with --ha"));
    }
    if mode.server || mode.server_origin || mode.server_replica {
        return Err(SyncError::protocol("--batch-manifest cannot be used with --server flags"));
    }
    if mode.origin.is_some() || mode.replica.is_some() {
        return Err(
            SyncError::protocol("batch mode does not accept ORIGIN/REPLICA positional arguments"),
        );
    }
    if args.jobs == 0 {
        return Err(SyncError::protocol("--batch-jobs must be greater than 0"));
    }
    if args.retry_jitter_pct > 100 {
        return Err(SyncError::protocol("--batch-retry-jitter-pct must be between 0 and 100"));
    }
    if args.retry_backoff_max_ms > 0 && args.retry_backoff_ms > 0 && args.retry_backoff_max_ms
        < args.retry_backoff_ms {
        return Err(
            SyncError::protocol("--batch-retry-backoff-max-ms must be >= --batch-retry-backoff-ms"),
        );
    }
    let path: String = match &mode.batch_manifest {
        None => {
            return Err(SyncError::protocol("--batch-manifest is required in batch mode"));
        },
        Some(p) => p.clone(),
    };
    let default_timeout: Option<Duration> = if args.timeout_secs > 0 {
        Some(Duration::from_secs(args.timeout_secs))
    } else {
        None
    };
    let options: BatchRuntimeOptions = BatchRuntimeOptions {
        jobs: args.jobs,
        default_dry_run: args.dry_run,
        default_retries: args.retries,
        default_timeout,
        retry_backoff_base: nonzero_millis(args.retry_backoff_ms),
        retry_backoff_max: nonzero_millis(args.retry_backoff_max_ms),
        retry_jitter_pct: args.retry_jitter_pct,
        exe: args.exe,
        ssh_opts: args.ssh_opts,
        ssh_options: SshConnectOptions::with_timeout(args.ssh_auth, args.ssh_connect_timeout),
        tuning,
    };
    Ok((path, options))
}

/// What is said of a batch run.
pub fn batch_summary(report: &BatchRunReport) -> (r: String)
    ensures
        r@ == "batch summary: total="@ + text::decimal(report.total as nat) + ", succeeded="@
            + text::decimal(report.succeeded as nat) + ", failed="@ + text::decimal(
            report.failed as nat,
        ),
{
    let mut s: String = "batch summary: total=".to_owned();
    s.append(text::u64_text(report.total as u64).as_str());
    s.append(", succeeded=");
    s.append(text::u64_text(report.succeeded as u64).as_str());
    s.append(", failed=");
    s.append(text::u64_text(report.failed as u64).as_str());
    s
}

/// What is said of an entry that failed.
pub fn item_failure(item: &BatchItemResult) -> (r: Option<String>)
    ensures
        text::opt_view(r) == match item.error {
            Some(e) => Some("batch failed ["@ + item.id@ + "]: "@ + e@),
            None => None,
        },
{
    match &item.error {
        None => None,
        Some(e) => {
            let mut s: String = "batch failed [".to_owned();
            s.append(item.id.as_str());
            s.append("]: ");
            s.append(e.as_str());
            Some(s)
        },
    }
}

/// What is said of a dry run on a local origin.
pub fn dry_run_report(page_count: u32, page_size: u32) -> (r: String)
    ensures
        r@ == "dry-run: origin has "@ + text::decimal(page_count as nat) + " pages ("@
            + text::decimal((page_count * page_size) as nat) + " bytes)"@,
{
    assert(page_count * page_size <= 0xFFFF_FFFF * 0xFFFF_FFFF) by (nonlinear_arith)
        requires
            page_count <= 0xFFFF_FFFF,
            page_size <= 0xFFFF_FFFF,
    ;
    let bytes: u64 = page_count as u64 * page_size as u64;
    let mut s: String = "dry-run: origin has ".to_owned();
    s.append(text::u64_text(page_count as u64).as_str());
    s.append(" pages (");
    s.append(text::u64_text(bytes).as_str());
    s.append(" bytes)");
    s
}

// ---------------------------------------------------------------------------
// What the arguments come to
// ---------------------------------------------------------------------------

/// The program does something exactly if it has a manifest, serves a cluster, serves
/// an origin that is given, or has two databases of which one is local.
pub proof fn law_program_needs_its_arguments(args: ModeArgs)
    ensures
        mode_refusal(args) is None <==> {
            ||| args.batch_manifest is Some
            ||| args.ha
            ||| args.origin is Some && (args.server || args.server_origin || args.server_replica)
            ||| args.origin is Some && args.replica is Some && !(endpoint::endpoint_of(
                args.origin->0@,
            ) is Remote && endpoint::endpoint_of(args.replica->0@) is Remote)
        },
{
}

/// A manifest comes before serving a cluster, that before serving as a replica, that
/// before serving as an origin, and all before synchronising two databases.
pub proof fn law_first_choice_decides(mode: Mode, args: ModeArgs)
    requires
        is_mode(mode, args),
    ensures
        mode is Batch <==> args.batch_manifest is Some,
        mode is Ha <==> args.batch_manifest is None && args.ha,
        mode is ServeReplica <==> args.batch_manifest is None && !args.ha && args.server_replica,
        mode is ServeOrigin <==> args.batch_manifest is None && !args.ha && !args.server_replica
            && (args.server || args.server_origin),
        mode is Sync <==> args.batch_manifest is None && !args.ha && !args.server_replica
            && !args.server && !args.server_origin,
        mode matches Mode::ServeReplica(path) ==> path@ == args.origin->0@,
        mode matches Mode::ServeOrigin(path) ==> path@ == args.origin->0@,
        mode matches Mode::Sync(route) ==> {
            let origin = endpoint::endpoint_of(args.origin->0@);
            let replica = endpoint::endpoint_of(args.replica->0@);
            &&& route is Local <==> origin is Local && replica is Local
            &&& route is Push <==> origin is Local && replica is Remote
            &&& route is Pull <==> origin is Remote && replica is Local
        },
{
    match mode {
        Mode::Sync(route) => {
            endpoint::law_route_leads_from_origin_to_replica(
                route,
                endpoint::endpoint_of(args.origin->0@),
                endpoint::endpoint_of(args.replica->0@),
            );
        },
        _ => {},
    }
}

/// A batch runs exactly if it has a manifest and nothing that does not go with it, a
/// job at least, a jitter of at most the whole, and a longest backoff, where there is
/// one, that is no less than the backoff.
pub proof fn law_batch_needs_its_arguments(mode: ModeArgs, args: BatchArgs)
    ensures
        batch_refusal(mode, args) is None <==> {
            &&& mode.batch_manifest is Some
            &&& !mode.ha && !mode.server && !mode.server_origin && !mode.server_replica
            &&& mode.origin is None && mode.replica is None
            &&& args.jobs > 0
            &&& args.retry_jitter_pct <= 100
            &&& args.retry_backoff_max_ms == 0 || args.retry_backoff_ms
                <= args.retry_backoff_max_ms
        },
{
}

/// The settings of a batch run are its arguments, where a timeout, a backoff and a
/// longest backoff of nothing are none.
pub proof fn law_batch_arguments_become_settings(
    o: BatchRuntimeOptions,
    args: BatchArgs,
    tuning: SyncTuning,
)
    requires
        sets_up(o, args, tuning),
    ensures
        o.jobs == args.jobs,
        o.default_dry_run == args.dry_run,
        o.default_retries == args.retries,
        o.default_timeout is None <==> args.timeout_secs == 0,
        o.default_timeout matches Some(d) ==> d.millis() == args.timeout_secs * 1000,
        o.retry_backoff_base is None <==> args.retry_backoff_ms == 0,
        o.retry_backoff_base matches Some(d) ==> d.millis() == args.retry_backoff_ms,
        o.retry_backoff_max is None <==> args.retry_backoff_max_ms == 0,
        o.retry_backoff_max matches Some(d) ==> d.millis() == args.retry_backoff_max_ms,
        o.retry_jitter_pct == args.retry_jitter_pct,
        o.ssh_options.connect_timeout_secs >= 1,
        args.ssh_connect_timeout >= 1 ==> o.ssh_options.connect_timeout_secs
            == args.ssh_connect_timeout,
{
    Duration::law_span_of_secs(args.timeout_secs);
    Duration::law_span_of_millis(args.retry_backoff_ms);
    Duration::law_span_of_millis(args.retry_backoff_max_ms);
}

/// The program, the way to the remote end and the tuning of a batch run are those
/// given.
pub proof fn law_batch_runs_with_what_is_given(
    o: BatchRuntimeOptions,
    args: BatchArgs,
    tuning: SyncTuning,
)
    requires
        sets_up(o, args, tuning),
    ensures
        o.exe@ == args.exe@,
        o.ssh_opts@ == args.ssh_opts@,
        o.ssh_options.auth_mode == args.ssh_auth,
        o.tuning == tuning,
{
}

/// What a batch run lacks, or has too much of, is told: the first of these.
pub proof fn law_refused_batch_is_told_why(mode: ModeArgs, args: BatchArgs)
    ensures
        ({
            let why = batch_refusal(mode, args);
            let serves = mode.server || mode.server_origin || mode.server_replica;
            let names = mode.origin is Some || mode.replica is Some;
            let alone = !mode.ha && !serves && !names;
            &&& mode.ha ==> why == Some("--batch-manifest cannot be used with --ha"@)
            &&& !mode.ha && serves ==> why == Some(
                "--batch-manifest cannot be used with --server flags"@,
            )
            &&& !mode.ha && !serves && names ==> why == Some(
                "batch mode does not accept ORIGIN/REPLICA positional arguments"@,
            )
            &&& alone && args.jobs == 0 ==> why == Some("--batch-jobs must be greater than 0"@)
            &&& alone && args.jobs > 0 && args.retry_jitter_pct > 100 ==> why == Some(
                "--batch-retry-jitter-pct must be between 0 and 100"@,
            )
            &&& alone && args.jobs > 0 && args.retry_jitter_pct <= 100 && 0
                < args.retry_backoff_max_ms < args.retry_backoff_ms ==> why == Some(
                "--batch-retry-backoff-max-ms must be >= --batch-retry-backoff-ms"@,
            )
            &&& alone && args.jobs > 0 && args.retry_jitter_pct <= 100 && !(0
                < args.retry_backoff_max_ms < args.retry_backoff_ms) && mode.batch_manifest is None
                ==> why == Some("--batch-manifest is required in batch mode"@)
        }),
{
}

/// What the program lacks is told.
pub proof fn law_refused_run_is_told_why(args: ModeArgs)
    requires
        args.batch_manifest is None,
        !args.ha,
    ensures
        ({
            let why = mode_refusal(args);
            let serves = args.server || args.server_origin || args.server_replica;
            &&& args.origin is None ==> why == Some(
                "ORIGIN is required unless --ha or a client subcommand is set"@,
            )
            &&& args.origin is Some && !serves && args.replica is None ==> why == Some(
                "REPLICA is required unless --server is set"@,
            )
            &&& args.origin is Some && !serves && args.replica is Some && endpoint::endpoint_of(
                args.origin->0@,
            ) is Remote && endpoint::endpoint_of(args.replica->0@) is Remote ==> why == Some(
                "at least one of ORIGIN or REPLICA must be local"@,
            )
        }),
{
}

} // verus!
