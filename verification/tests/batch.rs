use rsqlite_rsync::batch::{
    after_attempt, attempt_timed_out, attempt_work, batch_failure, compare_page_sizes,
    entry_settings, finish_batch, load_manifest, manifest_read_error, retry_delay_for_attempt,
    retry_delay_for_attempt_core, AfterAttempt, AttemptWork, BatchItemResult, BatchRuntimeOptions,
    BatchSchedule, BatchSyncSpec, ManifestFormat, ManifestParses,
};
use rsqlite_rsync::endpoint::SyncRoute;
use rsqlite_rsync::error::{Result, SyncError};
use rsqlite_rsync::ssh::{SshAuthMode, SshConnectOptions};
use rsqlite_rsync::time::Duration;
use rsqlite_rsync::SyncTuning;

fn default_runtime_options() -> BatchRuntimeOptions {
    BatchRuntimeOptions {
        jobs: 1,
        default_dry_run: false,
        default_retries: 0,
        default_timeout: None,
        retry_backoff_base: None,
        retry_backoff_max: None,
        retry_jitter_pct: 0,
        exe: "rsqlite-rsync".to_string(),
        ssh_opts: Vec::new(),
        ssh_options: SshConnectOptions::with_timeout(SshAuthMode::NonInteractive, 10),
        tuning: SyncTuning::default(),
    }
}

fn spec(origin: &str, replica: &str, dry_run: bool) -> BatchSyncSpec {
    BatchSyncSpec {
        name: None,
        origin: origin.to_string(),
        replica: replica.to_string(),
        dry_run: Some(dry_run),
        retries: Some(0),
        timeout_secs: None,
        retry_backoff_ms: None,
        retry_backoff_max_ms: None,
        retry_jitter_pct: None,
    }
}

/// The entries of a parsed manifest.
fn entries(value: serde_json::Value) -> std::result::Result<Vec<BatchSyncSpec>, String> {
    let syncs = value
        .get("syncs")
        .and_then(|s| s.as_array())
        .ok_or("missing field `syncs`")?;
    let mut out = Vec::new();
    for entry in syncs {
        let text = |key: &str| entry.get(key).and_then(|v| v.as_str()).map(String::from);
        let number = |key: &str| entry.get(key).and_then(|v| v.as_u64());
        out.push(BatchSyncSpec {
            name: text("name"),
            origin: text("origin").ok_or("missing field `origin`")?,
            replica: text("replica").ok_or("missing field `replica`")?,
            dry_run: entry.get("dry_run").and_then(|v| v.as_bool()),
            retries: number("retries").map(|n| n as u32),
            timeout_secs: number("timeout_secs"),
            retry_backoff_ms: number("retry_backoff_ms"),
            retry_backoff_max_ms: number("retry_backoff_max_ms"),
            retry_jitter_pct: number("retry_jitter_pct").map(|n| n as u8),
        });
    }
    Ok(out)
}

fn parses(content: &str) -> ManifestParses {
    ManifestParses {
        json: serde_json::from_str::<serde_json::Value>(content)
            .map_err(|e| e.to_string())
            .and_then(entries),
        yaml: serde_yaml::from_str::<serde_yaml::Value>(content)
            .map_err(|e| e.to_string())
            .and_then(|v| serde_json::to_value(v).map_err(|e| e.to_string()))
            .and_then(entries),
        toml: toml::from_str::<toml::Value>(content)
            .map_err(|e| e.to_string())
            .and_then(|v| serde_json::to_value(v).map_err(|e| e.to_string()))
            .and_then(entries),
    }
}

/// Load a manifest of this name and content.
fn load(file: &str, content: &str, format: ManifestFormat) -> Result<Vec<BatchSyncSpec>> {
    let extension = file.rsplit_once('.').map(|(_, e)| e);
    load_manifest(file, format, extension, parses(content))
}

// -- BatchSyncSpec::identifier ------------------------------------

#[test]
fn identifier_falls_back_to_origin_arrow_replica_when_unnamed() {
    let unnamed = spec("origin.db", "replica.db", false);
    assert_eq!(unnamed.identifier(), "origin.db -> replica.db");

    let mut named = spec("origin.db", "replica.db", false);
    named.name = Some("custom-name".to_string());
    assert_eq!(named.identifier(), "custom-name");
}

// -- load_manifest: I/O and explicit format selection --------------

#[test]
fn load_manifest_missing_file_reports_read_error() {
    let err = manifest_read_error("does-not-exist.json", "no such file");
    assert!(err.display().contains("failed reading batch manifest"));
}

#[test]
fn load_manifest_explicit_json_format_parses() {
    let specs = load(
        "manifest.dat",
        r#"{"syncs": [{"origin": "a", "replica": "b"}]}"#,
        ManifestFormat::Json,
    )
    .unwrap();
    assert_eq!(specs.len(), 1);
    assert_eq!(specs[0].origin, "a");
    assert_eq!(specs[0].replica, "b");
}

#[test]
fn load_manifest_explicit_yaml_format_parses() {
    let specs = load(
        "manifest.dat",
        "syncs:\n  - origin: a\n    replica: b\n",
        ManifestFormat::Yaml,
    )
    .unwrap();
    assert_eq!(specs.len(), 1);
    assert_eq!(specs[0].origin, "a");
    assert_eq!(specs[0].replica, "b");
}

#[test]
fn load_manifest_explicit_toml_format_parses() {
    let specs = load(
        "manifest.dat",
        "[[syncs]]\norigin = \"a\"\nreplica = \"b\"\n",
        ManifestFormat::Toml,
    )
    .unwrap();
    assert_eq!(specs.len(), 1);
    assert_eq!(specs[0].origin, "a");
    assert_eq!(specs[0].replica, "b");
}

#[test]
fn load_manifest_explicit_yaml_format_reports_parse_error() {
    // Valid YAML syntax, but the wrong shape (missing required `syncs`).
    let err = load("manifest.dat", "foo: bar\n", ManifestFormat::Yaml).unwrap_err();
    assert!(err.display().contains("as yaml"));
}

#[test]
fn load_manifest_explicit_toml_format_reports_parse_error() {
    // Not valid TOML syntax at all (colon instead of `=`).
    let err = load("manifest.dat", "foo: bar\n", ManifestFormat::Toml).unwrap_err();
    assert!(err.display().contains("as toml"));
}

// -- load_manifest: Auto format-detection fallback chain -----------

#[test]
fn load_manifest_auto_detects_json_without_recognized_extension() {
    let specs = load(
        "manifest",
        r#"{"syncs": [{"origin": "a", "replica": "b"}]}"#,
        ManifestFormat::Auto,
    )
    .unwrap();
    assert_eq!(specs.len(), 1);
}

#[test]
fn load_manifest_auto_falls_back_to_yaml_without_recognized_extension() {
    // Not valid JSON (unquoted keys, no braces), valid YAML.
    let specs = load(
        "manifest",
        "syncs:\n  - origin: a\n    replica: b\n",
        ManifestFormat::Auto,
    )
    .unwrap();
    assert_eq!(specs.len(), 1);
}

#[test]
fn load_manifest_auto_falls_back_to_toml_without_recognized_extension() {
    // Not valid JSON, and not the right shape for YAML either, but valid TOML.
    let specs = load(
        "manifest",
        "[[syncs]]\norigin = \"a\"\nreplica = \"b\"\n",
        ManifestFormat::Auto,
    )
    .unwrap();
    assert_eq!(specs.len(), 1);
}

#[test]
fn load_manifest_auto_reports_all_format_errors_when_none_match() {
    let err = load("manifest", "@@@ not valid {{{ anything", ManifestFormat::Auto).unwrap_err();
    let message = err.display();
    assert!(message.contains("json error"));
    assert!(message.contains("yaml error"));
    assert!(message.contains("toml error"));
}

// -- load_manifest: entry validation --------------------------------

#[test]
fn load_manifest_rejects_empty_syncs_list() {
    let err = load("batch.json", r#"{"syncs": []}"#, ManifestFormat::Json).unwrap_err();
    assert!(err.display().contains("no sync entries"));
}

#[test]
fn load_manifest_rejects_blank_origin() {
    let err = load(
        "batch.json",
        r#"{"syncs": [{"origin": "   ", "replica": "b"}]}"#,
        ManifestFormat::Json,
    )
    .unwrap_err();
    assert!(err.display().contains("empty origin"));
}

#[test]
fn load_manifest_rejects_blank_replica() {
    let err = load(
        "batch.json",
        r#"{"syncs": [{"origin": "a", "replica": ""}]}"#,
        ManifestFormat::Json,
    )
    .unwrap_err();
    assert!(err.display().contains("empty replica"));
}

#[test]
fn load_manifest_explicit_json_error_path() {
    let err = load("batch.json", "not valid json", ManifestFormat::Json).unwrap_err();
    assert!(matches!(err, SyncError::Protocol(_)));
}

#[test]
fn load_manifest_auto_format_extensions() {
    let m_yaml = load(
        "manifest.yaml",
        "syncs:\n  - origin: a.db\n    replica: b.db\n",
        ManifestFormat::Auto,
    )
    .unwrap();
    assert_eq!(m_yaml.len(), 1);

    let m_yml = load(
        "manifest.yml",
        "syncs:\n  - origin: a.db\n    replica: b.db\n",
        ManifestFormat::Auto,
    )
    .unwrap();
    assert_eq!(m_yml.len(), 1);

    let m_toml = load(
        "manifest.toml",
        "[[syncs]]\norigin = \"a.db\"\nreplica = \"b.db\"\n",
        ManifestFormat::Auto,
    )
    .unwrap();
    assert_eq!(m_toml.len(), 1);
}

#[test]
fn extension_decides_without_regard_to_case() {
    // Valid YAML, but a JSON file by its name.
    let err = load(
        "batch.JSON",
        "syncs:\n  - origin: a\n    replica: b\n",
        ManifestFormat::Auto,
    )
    .unwrap_err();
    assert!(err
        .display()
        .starts_with("Protocol error: failed parsing batch manifest batch.JSON as json: "));
}

#[test]
fn load_manifest_reports_the_index_of_a_bad_entry() {
    for (second, problem) in [
        (
            r#"{"origin": "a", "replica": "b", "timeout_secs": 0}"#,
            "timeout_secs must be greater than 0",
        ),
        (
            r#"{"origin": "a", "replica": "b", "retry_jitter_pct": 101}"#,
            "retry_jitter_pct must be between 0 and 100",
        ),
        (
            r#"{"origin": "a", "replica": "b", "retry_backoff_ms": 20, "retry_backoff_max_ms": 10}"#,
            "retry_backoff_max_ms must be >= retry_backoff_ms",
        ),
    ] {
        let content = format!(r#"{{"syncs": [{{"origin": "a", "replica": "b"}}, {second}]}}"#);
        let err = load("m", &content, ManifestFormat::Json).unwrap_err();
        assert_eq!(
            err.display(),
            format!("Protocol error: batch manifest m entry 1 {problem}")
        );
    }
}

#[test]
fn backoff_maximum_of_zero_is_no_limit() {
    let specs = load(
        "m",
        r#"{"syncs": [{"origin": "a", "replica": "b", "retry_backoff_ms": 20, "retry_backoff_max_ms": 0}]}"#,
        ManifestFormat::Json,
    )
    .unwrap();
    let settings = entry_settings(&specs[0], &default_runtime_options());
    assert_eq!(settings.backoff_base, Some(Duration::from_millis(20)));
    assert_eq!(settings.backoff_max, None);
}

// -- scheduling -------------------------------------------------------

fn done(index: usize, error: Option<&str>) -> BatchItemResult {
    BatchItemResult {
        index,
        id: format!("entry-{index}"),
        error: error.map(String::from),
    }
}

#[test]
fn run_batch_sync_handles_more_job_slots_than_entries() {
    let mut schedule = BatchSchedule::new(2, 5);
    assert_eq!(schedule.start_next(), Some(0));
    assert_eq!(schedule.start_next(), Some(1));
    assert_eq!(schedule.start_next(), None);
    assert_eq!(schedule.in_flight(), 2);

    let report = finish_batch(vec![done(0, None), done(1, None)]);
    assert_eq!(report.total, 2);
    assert_eq!(report.succeeded, 2);
    assert_eq!(report.failed, 0);
    assert!(!report.any_failed());
    assert!(batch_failure(&report).is_none());
}

#[test]
fn schedule_never_exceeds_its_limit() {
    let mut schedule = BatchSchedule::new(5, 2);
    let mut started = Vec::new();
    let mut most = 0;
    loop {
        while let Some(index) = schedule.start_next() {
            started.push(index);
        }
        most = most.max(schedule.in_flight());
        if schedule.in_flight() == 0 {
            break;
        }
        schedule.finish_one();
    }
    assert_eq!(started, vec![0, 1, 2, 3, 4]);
    assert_eq!(most, 2);
}

#[test]
fn schedule_of_no_jobs_runs_one_at_a_time() {
    let mut schedule = BatchSchedule::new(2, 0);
    assert_eq!(schedule.start_next(), Some(0));
    assert_eq!(schedule.start_next(), None);
    schedule.finish_one();
    assert_eq!(schedule.start_next(), Some(1));
}

#[test]
fn report_is_in_the_order_of_the_entries() {
    let report = finish_batch(vec![done(2, Some("x")), done(0, None), done(1, Some("y"))]);
    let order: Vec<usize> = report.results.iter().map(|r| r.index).collect();
    assert_eq!(order, vec![0, 1, 2]);
    assert_eq!((report.total, report.succeeded, report.failed), (3, 1, 2));
    assert!(report.any_failed());
    assert!(report.results[0].is_success());
    assert_eq!(
        batch_failure(&report).unwrap().display(),
        "Protocol error: batch sync completed with 2 failed entries"
    );
}

// -- one entry ----------------------------------------------------------

#[test]
fn run_one_reports_timeout_error_when_attempt_exceeds_deadline() {
    let item = spec("origin.db", "localhost:/tmp/replica.db", false);
    let mut options = default_runtime_options();
    options.default_timeout = Some(Duration::from_secs(3));
    let settings = entry_settings(&item, &options);
    let error = attempt_timed_out(settings.timeout.unwrap());
    match after_attempt(0, &item, &settings, 1, &Err(error), 0) {
        AfterAttempt::Finished(result) => {
            assert!(!result.is_success());
            let error = result.error.unwrap();
            assert!(error.contains("timed out"), "unexpected error: {error}");
            assert_eq!(
                error,
                "after 1 attempt(s): Protocol error: sync attempt timed out after 3s"
            );
        }
        other => panic!("unexpected: {other:?}"),
    }
}

#[test]
fn run_one_succeeds_within_a_generous_timeout() {
    let item = spec("origin.db", "replica.db", true);
    let mut options = default_runtime_options();
    options.default_timeout = Some(Duration::from_secs(30));
    let settings = entry_settings(&item, &options);
    assert_eq!(settings.timeout, Some(Duration::from_secs(30)));
    match after_attempt(4, &item, &settings, 1, &Ok(()), 0) {
        AfterAttempt::Finished(result) => {
            assert!(result.is_success());
            assert_eq!(result.index, 4);
            assert_eq!(result.id, "origin.db -> replica.db");
        }
        other => panic!("unexpected: {other:?}"),
    }
}

#[test]
fn failed_attempts_are_retried_until_used_up() {
    let mut item = spec("origin.db", "replica.db", false);
    item.retries = Some(2);
    item.retry_backoff_ms = Some(10);
    let settings = entry_settings(&item, &default_runtime_options());
    assert_eq!(settings.attempt_count, 3);
    let failure = Err(SyncError::Busy("locked".into()));
    for (attempt, delay) in [(1, 10), (2, 20)] {
        assert!(matches!(
            after_attempt(0, &item, &settings, attempt, &failure, 0),
            AfterAttempt::Retry(Some(d)) if d == Duration::from_millis(delay)
        ));
    }
    assert!(matches!(
        after_attempt(0, &item, &settings, 3, &failure, 0),
        AfterAttempt::Finished(r)
            if r.error.as_deref() == Some("after 3 attempt(s): Database busy / locked: locked")
    ));
}

#[test]
fn test_run_one_fallback_backoff_max() {
    let item = BatchSyncSpec {
        name: None,
        origin: "origin.db".to_string(),
        replica: "replica.db".to_string(),
        dry_run: Some(false),
        retries: Some(1),
        timeout_secs: None,
        retry_backoff_ms: Some(1),
        retry_backoff_max_ms: None,
        retry_jitter_pct: None,
    };
    let mut opts = default_runtime_options();
    opts.retry_backoff_max = Some(Duration::from_millis(10));
    let settings = entry_settings(&item, &opts);
    assert_eq!(settings.backoff_base, Some(Duration::from_millis(1)));
    assert_eq!(settings.backoff_max, Some(Duration::from_millis(10)));
    assert_eq!(
        retry_delay_for_attempt(&settings, 9, 0),
        Some(Duration::from_millis(10))
    );
}

#[test]
fn most_retries_do_not_overflow_the_attempts() {
    let mut item = spec("a", "b", false);
    item.retries = Some(u32::MAX);
    assert_eq!(
        entry_settings(&item, &default_runtime_options()).attempt_count,
        u32::MAX
    );
}

#[test]
fn run_one_inner_local_dry_run_uses_dry_run_local() {
    let item = spec("origin.db", "replica.db", true);
    assert!(matches!(
        attempt_work(&item, true),
        Ok(AttemptWork::CompareLocal { origin, replica })
            if origin == "origin.db" && replica == "replica.db"
    ));
}

#[test]
fn run_one_inner_push_dry_run_returns_immediately() {
    let item = spec("/tmp/origin.db", "example.com:/remote/replica.db", true);
    assert!(matches!(attempt_work(&item, true), Ok(AttemptWork::Nothing)));
}

#[test]
fn run_one_inner_pull_dry_run_returns_immediately() {
    let item = spec("example.com:/remote/origin.db", "/tmp/replica.db", true);
    assert!(matches!(attempt_work(&item, true), Ok(AttemptWork::Nothing)));
}

#[test]
fn attempts_synchronise_along_their_route() {
    let item = spec("/tmp/origin.db", "example.com:/remote/replica.db", false);
    assert!(matches!(
        attempt_work(&item, false),
        Ok(AttemptWork::Sync(SyncRoute::Push { origin, user_host, path }))
            if origin == "/tmp/origin.db" && user_host == "example.com"
                && path == "/remote/replica.db"
    ));
    let item = spec("me@one:/a", "me@two:/b", true);
    assert!(attempt_work(&item, true).is_err());
}

#[test]
fn dry_run_local_ok_when_replica_missing() {
    assert!(compare_page_sizes(4096, None).is_ok());
}

#[test]
fn dry_run_local_ok_when_page_sizes_match() {
    assert!(compare_page_sizes(4096, Some(4096)).is_ok());
}

#[test]
fn dry_run_local_errors_on_page_size_mismatch() {
    let err = compare_page_sizes(4096, Some(8192)).unwrap_err();
    assert_eq!(
        err,
        SyncError::PageSizeMismatch {
            origin: 4096,
            replica: 8192
        }
    );
}

// -- retry_delay_for_attempt_core: edge cases ------------------------

#[test]
fn retry_delay_grows_exponentially_without_jitter() {
    let base = Duration::from_millis(10);

    let d1 = retry_delay_for_attempt_core(base, None, 0, 1, 0).unwrap();
    let d2 = retry_delay_for_attempt_core(base, None, 0, 2, 0).unwrap();
    let d3 = retry_delay_for_attempt_core(base, None, 0, 3, 0).unwrap();

    assert_eq!(d1, Duration::from_millis(10));
    assert_eq!(d2, Duration::from_millis(20));
    assert_eq!(d3, Duration::from_millis(40));
}

#[test]
fn retry_delay_respects_max_cap() {
    let base = Duration::from_millis(100);
    let cap = Some(Duration::from_millis(250));

    let d1 = retry_delay_for_attempt_core(base, cap, 0, 1, 0).unwrap();
    let d2 = retry_delay_for_attempt_core(base, cap, 0, 2, 0).unwrap();
    let d3 = retry_delay_for_attempt_core(base, cap, 0, 3, 0).unwrap();

    assert_eq!(d1, Duration::from_millis(100));
    assert_eq!(d2, Duration::from_millis(200));
    assert_eq!(d3, Duration::from_millis(250));
}

#[test]
fn retry_delay_jitter_stays_within_expected_bounds() {
    let base = Duration::from_millis(100);
    let jitter_pct = 15;
    let expected_min = Duration::from_millis(85);
    let expected_max = Duration::from_millis(115);

    let low = retry_delay_for_attempt_core(base, None, jitter_pct, 1, 0).unwrap();
    let high = retry_delay_for_attempt_core(base, None, jitter_pct, 1, u128::MAX).unwrap();

    assert!(low >= expected_min && low <= expected_max);
    assert!(high >= expected_min && high <= expected_max);
}

#[test]
fn retry_delay_zero_base_yields_no_delay() {
    let delay = retry_delay_for_attempt_core(Duration::from_millis(0), None, 0, 1, 0);
    assert!(delay.is_none());
}

#[test]
fn retry_delay_zero_jitter_span_skips_jitter_adjustment() {
    // base=1ms, jitter_pct=1% => the span rounds down to 0.
    let delay = retry_delay_for_attempt_core(Duration::from_millis(1), None, 1, 1, 0).unwrap();
    assert_eq!(delay, Duration::from_millis(1));
}

#[test]
fn retry_delay_is_cut_off_at_both_ends() {
    // Jitter of more than the whole delay does not make it negative.
    let delay = retry_delay_for_attempt_core(Duration::from_millis(100), None, 200, 1, 0);
    assert_eq!(delay, Some(Duration::from_millis(0)));
    let delay = retry_delay_for_attempt_core(Duration::from_secs(u64::MAX), None, 0, 40, 0);
    assert_eq!(delay, Some(Duration::from_millis(u64::MAX)));
}

#[test]
fn jitter_takes_the_remainder_of_the_entropy() {
    let base = Duration::from_millis(100);
    // A span of 15 leaves 31 values, from 85 to 115.
    let delay = retry_delay_for_attempt_core(base, None, 15, 1, 31 * 7 + 20);
    assert_eq!(delay, Some(Duration::from_millis(105)));
}
