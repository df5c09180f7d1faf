//! Synchronising many databases in one run.
use vstd::prelude::*;

use crate::endpoint::SyncRoute;
use crate::error::{Result, SyncError};
use crate::sort;
use crate::sort::Ranked;
use crate::ssh::SshConnectOptions;
use crate::text;
use crate::time;
use crate::time::Duration;
use crate::tuning::SyncTuning;

verus! {

// ---------------------------------------------------------------------------
// Manifest
// ---------------------------------------------------------------------------

/// The format of a batch manifest.
#[derive(Debug, Clone, Copy, PartialEq, Eq, Structural)]
pub enum ManifestFormat {
    /// By the extension of the file, or else the first format that fits.
    Auto,
    Json,
    Yaml,
    Toml,
}

/// One database to synchronise, with the settings that deviate from the
/// defaults of the run.
#[derive(Debug, Clone)]
pub struct BatchSyncSpec {
    pub name: Option<String>,
    pub origin: String,
    pub replica: String,
    pub dry_run: Option<bool>,
    pub retries: Option<u32>,
    pub timeout_secs: Option<u64>,
    pub retry_backoff_ms: Option<u64>,
    pub retry_backoff_max_ms: Option<u64>,
    pub retry_jitter_pct: Option<u8>,
}

impl BatchSyncSpec {
    /// The name of an entry, or else its origin and replica.
    pub open spec fn id(self) -> Seq<char> {
        match self.name {
            Some(name) => name@,
            None => self.origin@ + " -> "@ + self.replica@,
        }
    }

    /// The name of this entry, or else its origin and replica.
    pub fn identifier(&self) -> (r: String)
        ensures
            r@ == self.id(),
    {
        match &self.name {
            Some(name) => name.clone(),
            None => {
                let mut s: String = self.origin.clone();
                s.append(" -> ");
                s.append(self.replica.as_str());
                s
            },
        }
    }
}

/// What each of the three parsers made of the text of a manifest: its entries,
/// or the error text.
#[derive(Debug)]
pub struct ManifestParses {
    pub json: core::result::Result<Vec<BatchSyncSpec>, String>,
    pub yaml: core::result::Result<Vec<BatchSyncSpec>, String>,
    pub toml: core::result::Result<Vec<BatchSyncSpec>, String>,
}

/// The entries of a parse, or the error text.
pub open spec fn parse_view(
    parse: core::result::Result<Vec<BatchSyncSpec>, String>,
) -> core::result::Result<Seq<BatchSyncSpec>, Seq<char>> {
    match parse {
        Ok(entries) => Ok(entries@),
        Err(e) => Err(e@),
    }
}

/// The error for a manifest that is not of a format.
pub open spec fn parse_error(path: Seq<char>, format: Seq<char>, error: Seq<char>) -> Seq<char> {
    "failed parsing batch manifest "@ + path + " as "@ + format + ": "@ + error
}

/// A parse in one format, with the error as it is reported.
pub open spec fn reported_parse(
    path: Seq<char>,
    format: Seq<char>,
    parse: core::result::Result<Vec<BatchSyncSpec>, String>,
) -> core::result::Result<Seq<BatchSyncSpec>, Seq<char>> {
    match parse_view(parse) {
        Ok(entries) => Ok(entries),
        Err(e) => Err(parse_error(path, format, e)),
    }
}

/// The format to read a manifest in: the requested one, or else the one of the
/// extension of its file; `Auto` where neither says.
pub open spec fn effective_format(
    format: ManifestFormat,
    extension: Option<Seq<char>>,
) -> ManifestFormat {
    if format != ManifestFormat::Auto {
        format
    } else {
        match extension {
            None => ManifestFormat::Auto,
            Some(e) => if text::ascii_lowered(e) == "json"@ {
                ManifestFormat::Json
            } else if text::ascii_lowered(e) == "yaml"@ || text::ascii_lowered(e) == "yml"@ {
                ManifestFormat::Yaml
            } else if text::ascii_lowered(e) == "toml"@ {
                ManifestFormat::Toml
            } else {
                ManifestFormat::Auto
            },
        }
    }
}

/// The entries of a manifest in the effective format; without one, of the first
/// format that fits.
pub open spec fn manifest_entries(
    path: Seq<char>,
    format: ManifestFormat,
    parses: ManifestParses,
) -> core::result::Result<Seq<BatchSyncSpec>, Seq<char>> {
    let json = reported_parse(path, "json"@, parses.json);
    let yaml = reported_parse(path, "yaml"@, parses.yaml);
    let toml = reported_parse(path, "toml"@, parses.toml);
    match format {
        ManifestFormat::Json => json,
        ManifestFormat::Yaml => yaml,
        ManifestFormat::Toml => toml,
        ManifestFormat::Auto => match (json, yaml, toml) {
            (Ok(entries), _, _) => Ok(entries),
            (Err(_), Ok(entries), _) => Ok(entries),
            (Err(_), Err(_), Ok(entries)) => Ok(entries),
            (Err(j), Err(y), Err(t)) => Err(
                "failed parsing batch manifest "@ + path
                    + " with auto format detection; json error: "@ + j + "; yaml error: "@ + y
                    + "; toml error: "@ + t,
            ),
        },
    }
}

/// What is wrong with one entry of a manifest.
pub open spec fn entry_error(entry: BatchSyncSpec) -> Option<Seq<char>> {
    if text::trimmed(entry.origin@).len() == 0 {
        Some(" has empty origin"@)
    } else if text::trimmed(entry.replica@).len() == 0 {
        Some(" has empty replica"@)
    } else if entry.timeout_secs == Some(0u64) {
        Some(" timeout_secs must be greater than 0"@)
    } else if entry.retry_jitter_pct is Some && entry.retry_jitter_pct->0 > 100 {
        Some(" retry_jitter_pct must be between 0 and 100"@)
    } else if entry.retry_backoff_ms is Some && entry.retry_backoff_max_ms is Some
        && entry.retry_backoff_max_ms->0 > 0 && entry.retry_backoff_ms->0
        > entry.retry_backoff_max_ms->0 {
        Some(" retry_backoff_max_ms must be >= retry_backoff_ms"@)
    } else {
        None
    }
}

/// What is wrong with the entries from index `i` on: the first error.
pub open spec fn entries_error(path: Seq<char>, entries: Seq<BatchSyncSpec>, i: int) -> Option<
    Seq<char>,
>
    decreases entries.len() - i,
{
    if i < 0 || i >= entries.len() {
        None
    } else {
        match entry_error(entries[i]) {
            Some(e) => Some(
                "batch manifest "@ + path + " entry "@ + text::decimal(i as nat) + e,
            ),
            None => entries_error(path, entries, i + 1),
        }
    }
}

/// The entries to synchronise, or why there are none.
pub open spec fn manifest_meaning(
    path: Seq<char>,
    format: ManifestFormat,
    extension: Option<Seq<char>>,
    parses: ManifestParses,
) -> core::result::Result<Seq<BatchSyncSpec>, Seq<char>> {
    match manifest_entries(path, effective_format(format, extension), parses) {
        Err(e) => Err(e),
        Ok(entries) => if entries.len() == 0 {
            Err("batch manifest "@ + path + " has no sync entries"@)
        } else {
            match entries_error(path, entries, 0) {
                Some(e) => Err(e),
                None => Ok(entries),
            }
        },
    }
}

/// The error for a manifest file that could not be read.
pub fn manifest_read_error(path: &str, error: &str) -> (r: SyncError)
    ensures
        r.is_protocol("failed reading batch manifest "@ + path@ + ": "@ + error@),
{
    let mut m: String = "failed reading batch manifest ".to_owned();
    m.append(path);
    m.append(": ");
    m.append(error);
    SyncError::Protocol(m)
}

fn parse_error_text(path: &str, format: &str, error: &str) -> (r: String)
    ensures
        r@ == parse_error(path@, format@, error@),
{
    let mut m: String = "failed parsing batch manifest ".to_owned();
    m.append(path);
    m.append(" as ");
    m.append(format);
    m.append(": ");
    m.append(error);
    m
}

fn pick_format(format: ManifestFormat, extension: Option<&str>) -> (r: ManifestFormat)
    ensures
        r == effective_format(
            format,
            match extension {
                Some(e) => Some(e@),
                None => None,
            },
        ),
{
    if format != ManifestFormat::Auto {
        return format;
    }
    match extension {
        None => ManifestFormat::Auto,
        Some(e) => {
            let lowered: String = text::ascii_lowercase(e);
            if lowered == "json".to_owned() {
                ManifestFormat::Json
            } else if lowered == "yaml".to_owned() || lowered == "yml".to_owned() {
                ManifestFormat::Yaml
            } else if lowered == "toml".to_owned() {
                ManifestFormat::Toml
            } else {
                ManifestFormat::Auto
            }
        },
    }
}

/// A parse in one format, with the error as it is reported.
fn report_parse(
    path: &str,
    format: &str,
    parse: core::result::Result<Vec<BatchSyncSpec>, String>,
) -> (r: core::result::Result<Vec<BatchSyncSpec>, String>)
    ensures
        parse_view(r) == reported_parse(path@, format@, parse),
{
    match parse {
        Ok(entries) => Ok(entries),
        Err(e) => Err(parse_error_text(path, format, e.as_str())),
    }
}

fn pick_entries(path: &str, format: ManifestFormat, parses: ManifestParses) -> (r:
    core::result::Result<Vec<BatchSyncSpec>, String>)
    ensures
        parse_view(r) == manifest_entries(path@, format, parses),
{
    match format {
        ManifestFormat::Json => report_parse(path, "json", parses.json),
        ManifestFormat::Yaml => report_parse(path, "yaml", parses.yaml),
        ManifestFormat::Toml => report_parse(path, "toml", parses.toml),
        ManifestFormat::Auto => match report_parse(path, "json", parses.json) {
            Ok(entries) => Ok(entries),
            Err(json_error) => match report_parse(path, "yaml", parses.yaml) {
                Ok(entries) => Ok(entries),
                Err(yaml_error) => match report_parse(path, "toml", parses.toml) {
                    Ok(entries) => Ok(entries),
                    Err(toml_error) => {
                        let mut m: String = "failed parsing batch manifest ".to_owned();
                        m.append(path);
                        m.append(" with auto format detection; json error: ");
                        m.append(json_error.as_str());
                        m.append("; yaml error: ");
                        m.append(yaml_error.as_str());
                        m.append("; toml error: ");
                        m.append(toml_error.as_str());
                        Err(m)
                    },
                },
            },
        },
    }
}

/// What is wrong with one entry of a manifest.
fn check_entry(entry: &BatchSyncSpec) -> (r: Option<String>)
    ensures
        text::opt_view(r) == entry_error(*entry),
{
    if text::trim(entry.origin.as_str()).as_str().is_empty() {
        return Some(" has empty origin".to_owned());
    }
    if text::trim(entry.replica.as_str()).as_str().is_empty() {
        return Some(" has empty replica".to_owned());
    }
    match entry.timeout_secs {
        Some(secs) => {
            if secs == 0 {
                return Some(" timeout_secs must be greater than 0".to_owned());
            }
        },
        None => {},
    }
    match entry.retry_jitter_pct {
        Some(pct) => {
            if pct > 100 {
                return Some(" retry_jitter_pct must be between 0 and 100".to_owned());
            }
        },
        None => {},
    }
    match (entry.retry_backoff_ms, entry.retry_backoff_max_ms) {
        (Some(base), Some(max)) => {
            if max > 0 && base > max {
                return Some(" retry_backoff_max_ms must be >= retry_backoff_ms".to_owned());
            }
        },
        _ => {},
    }
    None
}

/// The entries of the batch manifest at `path`, from what the parsers of the
/// three formats made of its text.
pub fn load_manifest(
    path: &str,
    format: ManifestFormat,
    extension: Option<&str>,
    parses: ManifestParses,
) -> (r: Result<Vec<BatchSyncSpec>>)
    ensures
        ({
            let meaning = manifest_meaning(
                path@,
                format,
                match extension {
                    Some(e) => Some(e@),
                    None => None,
                },
                parses,
            );
            match r {
                Ok(entries) => meaning == Ok::<Seq<BatchSyncSpec>, Seq<char>>(entries@),
                Err(e) => meaning is Err && e.is_protocol(meaning->Err_0),
            }
        }),
{
    let entries: Vec<BatchSyncSpec> = match pick_entries(
        path,
        pick_format(format, extension),
        parses,
    ) {
        Ok(entries) => entries,
        Err(e) => {
            return Err(SyncError::Protocol(e));
        },
    };
    if entries.len() == 0 {
        let mut m: String = "batch manifest ".to_owned();
        m.append(path);
        m.append(" has no sync entries");
        return Err(SyncError::Protocol(m));
    }
    let mut i: usize = 0;
    while i < entries.len()
        invariant
            i <= entries@.len(),
            entries@.len() > 0,
            entries_error(path@, entries@, 0) == entries_error(path@, entries@, i as int),
            manifest_entries(
                path@,
                effective_format(
                    format,
                    match extension {
                        Some(e) => Some(e@),
                        None => None,
                    },
                ),
                parses,
            ) == Ok::<Seq<BatchSyncSpec>, Seq<char>>(entries@),
        decreases entries@.len() - i,
    {
        match check_entry(&entries[i]) {
            Some(problem) => {
                let mut m: String = "batch manifest ".to_owned();
                m.append(path);
                m.append(" entry ");
                m.append(text::u64_text(i as u64).as_str());
                m.append(problem.as_str());
                return Err(SyncError::Protocol(m));
            },
            None => {},
        }
        i = i + 1;
    }
    Ok(entries)
}

proof fn lemma_entries_checked(path: Seq<char>, entries: Seq<BatchSyncSpec>, i: int)
    requires
        0 <= i <= entries.len(),
        entries_error(path, entries, i) is None,
    ensures
        forall|j: int| i <= j < entries.len() ==> entry_error(#[trigger] entries[j]) is None,
    decreases entries.len() - i,
{
    if i < entries.len() {
        lemma_entries_checked(path, entries, i + 1);
    }
}

/// Every entry of an accepted manifest is sound: origin and replica are not
/// blank, a timeout is positive, a jitter is at most 100 percent, and a positive
/// maximal backoff is no less than the backoff.
pub proof fn law_accepted_entries_are_sound(
    path: Seq<char>,
    format: ManifestFormat,
    extension: Option<Seq<char>>,
    parses: ManifestParses,
)
    ensures
        manifest_meaning(path, format, extension, parses) matches Ok(entries) ==> entries.len() > 0
            && forall|j: int|
            0 <= j < entries.len() ==> {
                let e = #[trigger] entries[j];
                &&& text::trimmed(e.origin@).len() > 0
                &&& text::trimmed(e.replica@).len() > 0
                &&& e.timeout_secs != Some(0u64)
                &&& (e.retry_jitter_pct is Some ==> e.retry_jitter_pct->0 <= 100)
                &&& (e.retry_backoff_ms is Some && e.retry_backoff_max_ms is Some
                    && e.retry_backoff_max_ms->0 > 0 ==> e.retry_backoff_ms->0
                    <= e.retry_backoff_max_ms->0)
            },
{
    match manifest_meaning(path, format, extension, parses) {
        Ok(entries) => {
            lemma_entries_checked(path, entries, 0);
        },
        Err(_) => {},
    }
}

// ---------------------------------------------------------------------------
// Retrying
// ---------------------------------------------------------------------------

/// 2 to the power `e`.
pub open spec fn two_to(e: nat) -> nat
    decreases e,
{
    if e == 0 {
        1
    } else {
        2 * two_to((e - 1) as nat)
    }
}

/// The exponent of the backoff after a failed attempt.
pub open spec fn backoff_exponent(attempt: u32) -> nat {
    if attempt == 0 {
        0
    } else if attempt - 1 <= 31 {
        (attempt - 1) as nat
    } else {
        31
    }
}

/// The backoff after a failed attempt before jitter: doubled with each attempt,
/// up to the maximum.
pub open spec fn plain_delay(base_ms: nat, max_ms: Option<nat>, attempt: u32) -> nat {
    let doubled = base_ms * two_to(backoff_exponent(attempt));
    match max_ms {
        Some(max) => if doubled <= max {
            doubled
        } else {
            max
        },
        None => doubled,
    }
}

/// How far jitter may move a delay.
pub open spec fn jitter_span(delay_ms: nat, jitter_pct: u8) -> nat {
    (delay_ms * jitter_pct) as nat / 100
}

/// The delay after a failed attempt in milliseconds; none where it is zero
/// before jitter.
pub open spec fn retry_delay_ms(
    base_ms: nat,
    max_ms: Option<nat>,
    jitter_pct: u8,
    attempt: u32,
    entropy: u128,
) -> Option<nat> {
    let delay = plain_delay(base_ms, max_ms, attempt);
    if delay == 0 {
        None
    } else {
        let span = jitter_span(delay, jitter_pct);
        let moved = delay + (entropy as nat) % (2 * span + 1) - span;
        Some(
            if moved < 0 {
                0
            } else if moved <= u64::MAX {
                moved as nat
            } else {
                u64::MAX as nat
            },
        )
    }
}

/// The milliseconds of an optional span.
pub open spec fn opt_millis(d: Option<Duration>) -> Option<nat> {
    match d {
        Some(d) => Some(d.millis()),
        None => None,
    }
}

proof fn lemma_two_to_bound(e: nat)
    requires
        e <= 31,
    ensures
        1 <= two_to(e) <= 0x8000_0000,
{
    reveal_with_fuel(two_to, 32);
}

/// 2 to the power `e`.
fn power_of_two(e: u32) -> (r: u128)
    requires
        e <= 31,
    ensures
        r == two_to(e as nat),
        r <= 0x8000_0000,
{
    let mut factor: u128 = 1;
    let mut i: u32 = 0;
    while i < e
        invariant
            i <= e <= 31,
            factor == two_to(i as nat),
        decreases e - i,
    {
        proof {
            lemma_two_to_bound((i + 1) as nat);
        }
        factor = 2 * factor;
        i = i + 1;
    }
    proof {
        lemma_two_to_bound(e as nat);
    }
    factor
}

/// The delay after a failed attempt, with jitter drawn from `entropy_nanos`.
pub fn retry_delay_for_attempt_core(
    base: Duration,
    max: Option<Duration>,
    jitter_pct: u8,
    attempt: u32,
    entropy_nanos: u128,
) -> (r: Option<Duration>)
    ensures
        match retry_delay_ms(base.millis(), opt_millis(max), jitter_pct, attempt, entropy_nanos) {
            None => r is None,
            Some(ms) => r == Some(Duration::of_millis(ms as u64)),
        },
{
    let exponent: u32 = if attempt == 0 {
        0
    } else if attempt - 1 <= 31 {
        attempt - 1
    } else {
        31
    };
    let factor: u128 = power_of_two(exponent);
    let base_ms: u128 = base.as_millis();
    assert(base_ms * factor < 0x200_0000_0000_0000_0000_0000_0000) by (nonlinear_arith)
        requires
            base_ms < 0x400_0000_0000_0000_0000,
            factor <= 0x8000_0000,
    ;
    let mut delay_ms: u128 = base_ms * factor;
    match max {
        Some(max) => {
            let limit: u128 = max.as_millis();
            if limit < delay_ms {
                delay_ms = limit;
            }
        },
        None => {},
    }
    if delay_ms == 0 {
        return None;
    }
    assert(delay_ms * jitter_pct <= 0x200_0000_0000_0000_0000_0000_0000 * 255) by (
    nonlinear_arith)
        requires
            delay_ms <= 0x200_0000_0000_0000_0000_0000_0000,
            jitter_pct <= 255,
    ;
    let span: u128 = delay_ms * jitter_pct as u128 / 100;
    let draw: u128 = entropy_nanos % (2 * span + 1);
    let jittered: u128 = if delay_ms + draw >= span {
        delay_ms + draw - span
    } else {
        0
    };
    let millis: u64 = if jittered <= u64::MAX as u128 {
        jittered as u64
    } else {
        u64::MAX
    };
    Some(Duration::from_millis(millis))
}

/// Without jitter the delay never exceeds the maximum.
pub proof fn law_delay_respects_maximum(base_ms: nat, max_ms: nat, attempt: u32, entropy: u128)
    ensures
        retry_delay_ms(base_ms, Some(max_ms), 0, attempt, entropy) matches Some(ms) ==> ms
            <= max_ms,
{
    let delay = plain_delay(base_ms, Some(max_ms), attempt);
    assert(jitter_span(delay, 0) == 0) by {
        assert(delay * 0 == 0) by (nonlinear_arith);
    }
}

/// Without jitter and maximum the delay doubles with each attempt, as long as
/// it fits into 64 bits.
pub proof fn law_delay_doubles(base_ms: nat, attempt: u32, entropy: u128)
    requires
        base_ms > 0,
        1 <= attempt <= 31,
        base_ms * two_to(attempt as nat) <= u64::MAX,
    ensures
        retry_delay_ms(base_ms, None, 0, 1, entropy) == Some(base_ms),
        retry_delay_ms(base_ms, None, 0, (attempt + 1) as u32, entropy) == Some(
            2 * retry_delay_ms(base_ms, None, 0, attempt, entropy)->0,
        ),
{
    let a = two_to((attempt - 1) as nat);
    let b = two_to(attempt as nat);
    lemma_two_to_bound((attempt - 1) as nat);
    assert(b == 2 * a);
    assert(base_ms * b == 2 * (base_ms * a) && base_ms * a > 0 && base_ms * a >= base_ms)
        by (nonlinear_arith)
        requires
            b == 2 * a,
            a >= 1,
            base_ms > 0,
    ;
    assert(jitter_span(base_ms * a, 0) == 0) by {
        assert((base_ms * a) * 0 == 0) by (nonlinear_arith);
    }
    assert(jitter_span(base_ms * b, 0) == 0) by {
        assert((base_ms * b) * 0 == 0) by (nonlinear_arith);
    }
    assert(jitter_span(base_ms, 0) == 0) by {
        assert(base_ms * 0 == 0) by (nonlinear_arith);
    }
    assert(base_ms * two_to(0) == base_ms) by {
        assert(two_to(0) == 1);
        assert(base_ms * 1 == base_ms) by (nonlinear_arith);
    }
}

/// Jitter moves a delay by at most its percentage, in either direction.
pub proof fn law_jitter_stays_in_span(
    base_ms: nat,
    max_ms: Option<nat>,
    jitter_pct: u8,
    attempt: u32,
    entropy: u128,
)
    ensures
        retry_delay_ms(base_ms, max_ms, jitter_pct, attempt, entropy) matches Some(ms) ==> {
            let delay = plain_delay(base_ms, max_ms, attempt);
            let span = jitter_span(delay, jitter_pct);
            ms <= delay + span && (ms >= delay - span || ms == u64::MAX)
        },
{
    let delay = plain_delay(base_ms, max_ms, attempt);
    let span = jitter_span(delay, jitter_pct);
    assert(0 <= (entropy as nat) % (2 * span + 1) <= 2 * span) by (nonlinear_arith)
        requires
            span >= 0,
    ;
}

// ---------------------------------------------------------------------------
// Running one entry
// ---------------------------------------------------------------------------

/// The settings of a batch run.
#[derive(Debug, Clone)]
pub struct BatchRuntimeOptions {
    pub jobs: usize,
    pub default_dry_run: bool,
    pub default_retries: u32,
    pub default_timeout: Option<Duration>,
    pub retry_backoff_base: Option<Duration>,
    pub retry_backoff_max: Option<Duration>,
    pub retry_jitter_pct: u8,
    pub exe: String,
    pub ssh_opts: Vec<String>,
    pub ssh_options: SshConnectOptions,
    pub tuning: SyncTuning,
}

/// The settings that hold for one entry.
#[derive(Debug, Clone, Copy, PartialEq, Eq)]
pub struct EntrySettings {
    pub dry_run: bool,
    pub attempt_count: u32,
    pub timeout: Option<Duration>,
    pub backoff_base: Option<Duration>,
    pub backoff_max: Option<Duration>,
    pub backoff_jitter_pct: u8,
}

/// The backoff of an entry: its own, or else that of the run; none where it is
/// zero.
pub open spec fn effective_backoff(own: Option<u64>, default: Option<Duration>) -> Option<Duration> {
    let ms = match (own, default) {
        (Some(ms), _) => Some(ms),
        (None, Some(d)) => Some(time::low64(d.millis())),
        (None, None) => None,
    };
    match ms {
        Some(ms) => if ms > 0 {
            Some(Duration::of_millis(ms))
        } else {
            None
        },
        None => None,
    }
}

/// The value of an option, or else a default.
pub open spec fn value_or<T>(o: Option<T>, default: T) -> T {
    match o {
        Some(t) => t,
        None => default,
    }
}

/// The number of attempts on an entry with so many retries.
pub open spec fn attempts_for(retries: u32) -> u32 {
    if retries < u32::MAX {
        (retries + 1) as u32
    } else {
        u32::MAX
    }
}

/// Whether another attempt follows the one with this number.
pub open spec fn tries_again(attempt: u32, attempt_count: u32, failed: bool) -> bool {
    failed && attempt < attempt_count
}

fn pick_backoff(own: Option<u64>, default: Option<Duration>) -> (r: Option<Duration>)
    ensures
        r == effective_backoff(own, default),
{
    let ms: u64 = match own {
        Some(ms) => ms,
        None => match default {
            Some(d) => d.millis_low64(),
            None => {
                return None;
            },
        },
    };
    if ms > 0 {
        Some(Duration::from_millis(ms))
    } else {
        None
    }
}

/// The settings that hold for one entry of a run.
pub fn entry_settings(spec: &BatchSyncSpec, options: &BatchRuntimeOptions) -> (r: EntrySettings)
    ensures
        r.dry_run == value_or(spec.dry_run, options.default_dry_run),
        r.attempt_count == ({
            let retries = value_or(spec.retries, options.default_retries);
            if retries < u32::MAX {
                (retries + 1) as u32
            } else {
                u32::MAX
            }
        }),
        r.attempt_count == attempts_for(value_or(spec.retries, options.default_retries)),
        r.timeout == match spec.timeout_secs {
            Some(secs) => Some(Duration::of_secs(secs)),
            None => options.default_timeout,
        },
        r.backoff_base == effective_backoff(spec.retry_backoff_ms, options.retry_backoff_base),
        r.backoff_max == effective_backoff(spec.retry_backoff_max_ms, options.retry_backoff_max),
        r.backoff_jitter_pct == value_or(spec.retry_jitter_pct, options.retry_jitter_pct),
{
    let retries: u32 = match spec.retries {
        Some(n) => n,
        None => options.default_retries,
    };
    EntrySettings {
        dry_run: match spec.dry_run {
            Some(b) => b,
            None => options.default_dry_run,
        },
        attempt_count: retries.saturating_add(1),
        timeout: match spec.timeout_secs {
            Some(secs) => Some(Duration::from_secs(secs)),
            None => options.default_timeout,
        },
        backoff_base: pick_backoff(spec.retry_backoff_ms, options.retry_backoff_base),
        backoff_max: pick_backoff(spec.retry_backoff_max_ms, options.retry_backoff_max),
        backoff_jitter_pct: match spec.retry_jitter_pct {
            Some(pct) => pct,
            None => options.retry_jitter_pct,
        },
    }
}

/// The error of an attempt that took longer than `limit`.
pub fn attempt_timed_out(limit: Duration) -> (r: SyncError)
    ensures
        r.is_protocol(
            "sync attempt timed out after "@ + text::decimal(limit.seconds() as nat) + "s"@,
        ),
{
    let mut m: String = "sync attempt timed out after ".to_owned();
    m.append(text::u64_text(limit.as_secs()).as_str());
    m.append("s");
    SyncError::Protocol(m)
}

/// The result of one entry of a run.
#[derive(Debug, Clone, PartialEq, Eq)]
pub struct BatchItemResult {
    pub index: usize,
    pub id: String,
    pub error: Option<String>,
}

impl BatchItemResult {
    /// Whether the entry was synchronised.
    pub fn is_success(&self) -> (r: bool)
        ensures
            r == (self.error is None),
    {
        self.error.is_none()
    }
}

/// What follows an attempt on an entry.
#[derive(Debug)]
pub enum AfterAttempt {
    /// Wait, where there is something to wait for, and try again.
    Retry(Option<Duration>),
    /// The entry is done.
    Finished(BatchItemResult),
}

/// The delay before the next attempt, where there is one.
pub open spec fn delay_before_retry(
    settings: EntrySettings,
    attempt: u32,
    entropy: u128,
) -> Option<Duration> {
    match settings.backoff_base {
        None => None,
        Some(base) => match retry_delay_ms(
            base.millis(),
            opt_millis(settings.backoff_max),
            settings.backoff_jitter_pct,
            attempt,
            entropy,
        ) {
            None => None,
            Some(ms) => Some(Duration::of_millis(ms as u64)),
        },
    }
}

/// The delay before the next attempt, where there is one.
pub fn retry_delay_for_attempt(
    settings: &EntrySettings,
    attempt: u32,
    entropy_nanos: u128,
) -> (r: Option<Duration>)
    ensures
        r == delay_before_retry(*settings, attempt, entropy_nanos),
{
    match settings.backoff_base {
        None => None,
        Some(base) => retry_delay_for_attempt_core(
            base,
            settings.backoff_max,
            settings.backoff_jitter_pct,
            attempt,
            entropy_nanos,
        ),
    }
}

/// What follows the attempt with this number on an entry: success ends it, a
/// failure is retried until the attempts are used up.
pub fn after_attempt(
    index: usize,
    spec: &BatchSyncSpec,
    settings: &EntrySettings,
    attempt: u32,
    outcome: &core::result::Result<(), SyncError>,
    entropy_nanos: u128,
) -> (r: AfterAttempt)
    ensures
        match *outcome {
            Ok(()) => r matches AfterAttempt::Finished(result) && result.index == index
                && result.id@ == spec.id() && result.error is None,
            Err(e) => if attempt < settings.attempt_count {
                r == AfterAttempt::Retry(delay_before_retry(*settings, attempt, entropy_nanos))
            } else {
                r matches AfterAttempt::Finished(result) && result.index == index && result.id@
                    == spec.id() && text::opt_view(result.error) == Some(
                    "after "@ + text::decimal(settings.attempt_count as nat) + " attempt(s): "@
                        + e.shown(),
                )
            },
        },
        r is Retry <==> tries_again(attempt, settings.attempt_count, *outcome is Err),
{
    match outcome {
        Ok(()) => AfterAttempt::Finished(
            BatchItemResult { index, id: spec.identifier(), error: None },
        ),
        Err(error) => {
            if attempt < settings.attempt_count {
                return AfterAttempt::Retry(
                    retry_delay_for_attempt(settings, attempt, entropy_nanos),
                );
            }
            let mut m: String = "after ".to_owned();
            m.append(text::u64_text(settings.attempt_count as u64).as_str());
            m.append(" attempt(s): ");
            m.append(error.display().as_str());
            AfterAttempt::Finished(
                BatchItemResult { index, id: spec.identifier(), error: Some(m) },
            )
        },
    }
}

/// The work of one attempt.
#[derive(Debug)]
pub enum AttemptWork {
    /// Synchronise along this route.
    Sync(SyncRoute),
    /// Only compare the page sizes of two local databases.
    CompareLocal { origin: String, replica: String },
    /// Nothing.
    Nothing,
}

/// Whether this is the work of one attempt between two endpoints.
pub open spec fn is_work(
    work: AttemptWork,
    origin: crate::endpoint::EndpointView,
    replica: crate::endpoint::EndpointView,
    dry_run: bool,
) -> bool {
    match work {
        AttemptWork::Sync(route) => !dry_run && crate::endpoint::routes(route, origin, replica),
        AttemptWork::CompareLocal { origin: o, replica: r } => dry_run && origin
            == crate::endpoint::EndpointView::Local(o@) && replica
            == crate::endpoint::EndpointView::Local(r@),
        AttemptWork::Nothing => dry_run && (origin is Remote != replica is Remote),
    }
}

/// The work of one attempt on an entry.
pub fn attempt_work(spec: &BatchSyncSpec, dry_run: bool) -> (r: Result<AttemptWork>)
    ensures
        match r {
            Err(e) => crate::endpoint::endpoint_of(spec.origin@) is Remote
                && crate::endpoint::endpoint_of(spec.replica@) is Remote && e.is_protocol(
                "at least one of ORIGIN or REPLICA must be local"@,
            ),
            Ok(AttemptWork::Sync(route)) => !dry_run && crate::endpoint::routes(
                route,
                crate::endpoint::endpoint_of(spec.origin@),
                crate::endpoint::endpoint_of(spec.replica@),
            ),
            Ok(AttemptWork::CompareLocal { origin, replica }) => dry_run
                && crate::endpoint::endpoint_of(spec.origin@)
                == crate::endpoint::EndpointView::Local(origin@) && crate::endpoint::endpoint_of(
                spec.replica@,
            ) == crate::endpoint::EndpointView::Local(replica@),
            Ok(AttemptWork::Nothing) => dry_run && (crate::endpoint::endpoint_of(
                spec.origin@,
            ) is Remote != crate::endpoint::endpoint_of(spec.replica@) is Remote),
        },
        r matches Ok(work) ==> is_work(
            work,
            crate::endpoint::endpoint_of(spec.origin@),
            crate::endpoint::endpoint_of(spec.replica@),
            dry_run,
        ),
{
    match SyncRoute::between(spec.origin.as_str(), spec.replica.as_str()) {
        Err(e) => Err(e),
        Ok(route) => {
            if !dry_run {
                return Ok(AttemptWork::Sync(route));
            }
            match route {
                SyncRoute::Local { origin, replica } => Ok(
                    AttemptWork::CompareLocal { origin, replica },
                ),
                _ => Ok(AttemptWork::Nothing),
            }
        },
    }
}

/// Whether a replica with pages of this size, or one that does not exist yet, can take
/// in the pages of the origin.
pub open spec fn sizes_fit(origin_page_size: u32, replica_page_size: Option<u32>) -> bool {
    replica_page_size is None || replica_page_size == Some(origin_page_size)
}

/// The outcome of a dry run on two local databases, from the page size of the
/// origin and, where it exists, of the replica.
pub fn compare_page_sizes(origin_page_size: u32, replica_page_size: Option<u32>) -> (r: Result<()>)
    ensures
        r is Ok <==> sizes_fit(origin_page_size, replica_page_size),
        match replica_page_size {
            Some(size) => if size != origin_page_size {
                r == Err::<(), SyncError>(
                    SyncError::PageSizeMismatch { origin: origin_page_size, replica: size },
                )
            } else {
                r is Ok
            },
            None => r is Ok,
        },
{
    match replica_page_size {
        Some(size) => {
            if size != origin_page_size {
                return Err(
                    SyncError::PageSizeMismatch { origin: origin_page_size, replica: size },
                );
            }
            Ok(())
        },
        None => Ok(()),
    }
}

// ---------------------------------------------------------------------------
// Running all entries
// ---------------------------------------------------------------------------

/// Which entries of a run are started, and how many of them are under way.
#[derive(Debug)]
pub struct BatchSchedule {
    total: usize,
    limit: usize,
    started: usize,
    in_flight: usize,
}

impl BatchSchedule {
    /// No more entries are under way than the limit allows or than were started.
    pub closed spec fn wf(self) -> bool {
        &&& self.limit >= 1
        &&& self.in_flight <= self.limit
        &&& self.in_flight <= self.started
        &&& self.started <= self.total
    }

    /// The number of entries.
    pub closed spec fn entries(self) -> nat {
        self.total as nat
    }

    /// The number of entries that may be under way at a time.
    pub closed spec fn capacity(self) -> nat {
        self.limit as nat
    }

    /// The number of entries that were started: the first ones, in order.
    pub closed spec fn begun(self) -> nat {
        self.started as nat
    }

    /// The number of entries that are under way.
    pub closed spec fn running(self) -> nat {
        self.in_flight as nat
    }

    /// The schedule of a run of `total` entries with at most `jobs` of them
    /// under way at a time, but at least one.
    pub fn new(total: usize, jobs: usize) -> (r: BatchSchedule)
        ensures
            r.wf(),
            r.entries() == total,
            r.capacity() == if jobs >= 1 {
                jobs as nat
            } else {
                1
            },
            r.begun() == 0,
            r.running() == 0,
    {
        BatchSchedule {
            total,
            limit: if jobs >= 1 {
                jobs
            } else {
                1
            },
            started: 0,
            in_flight: 0,
        }
    }

    /// The index of the next entry to start now, where there is one and the
    /// limit allows it.
    pub fn start_next(&mut self) -> (r: Option<usize>)
        requires
            old(self).wf(),
        ensures
            final(self).wf(),
            final(self).entries() == old(self).entries(),
            final(self).capacity() == old(self).capacity(),
            if old(self).begun() < old(self).entries() && old(self).running()
                < old(self).capacity() {
                r is Some && r->0 == old(self).begun() && final(self).begun() == old(self).begun()
                    + 1 && final(self).running() == old(self).running() + 1
            } else {
                r is None && *final(self) == *old(self)
            },
            final(self).running() <= final(self).capacity(),
    {
        if self.started < self.total && self.in_flight < self.limit {
            let index: usize = self.started;
            self.started = self.started + 1;
            self.in_flight = self.in_flight + 1;
            Some(index)
        } else {
            None
        }
    }

    /// One of the entries under way is done.
    pub fn finish_one(&mut self)
        requires
            old(self).wf(),
            old(self).running() > 0,
        ensures
            final(self).wf(),
            final(self).entries() == old(self).entries(),
            final(self).capacity() == old(self).capacity(),
            final(self).begun() == old(self).begun(),
            final(self).running() == old(self).running() - 1,
    {
        self.in_flight = self.in_flight - 1;
    }

    /// The number of entries that are under way.
    pub fn in_flight(&self) -> (r: usize)
        ensures
            r == self.running(),
    {
        self.in_flight
    }
}

/// The results of a batch run.
#[derive(Debug, Clone)]
pub struct BatchRunReport {
    pub total: usize,
    pub succeeded: usize,
    pub failed: usize,
    pub results: Vec<BatchItemResult>,
}

impl BatchRunReport {
    /// Whether an entry failed.
    pub fn any_failed(&self) -> (r: bool)
        ensures
            r == (self.failed > 0),
    {
        self.failed > 0
    }
}

/// The number of results without an error.
pub open spec fn success_count(results: Seq<BatchItemResult>) -> nat
    decreases results.len(),
{
    if results.len() == 0 {
        0
    } else {
        success_count(results.drop_last()) + if results.last().error is None {
            1nat
        } else {
            0nat
        }
    }
}

proof fn lemma_count_push(s: Seq<BatchItemResult>, x: BatchItemResult)
    ensures
        success_count(s.push(x)) == success_count(s) + if x.error is None {
            1nat
        } else {
            0nat
        },
{
    assert(s.push(x).drop_last() == s);
}

impl Ranked for BatchItemResult {
    type Key = usize;

    open spec fn key(&self) -> usize {
        self.index
    }

    open spec fn precedes(a: usize, b: usize) -> bool {
        a < b
    }

    proof fn order(a: usize, b: usize, c: usize) {
    }

    fn goes_before(&self, other: &BatchItemResult) -> (r: bool) {
        self.index < other.index
    }
}

/// Results in the order of their entries.
pub open spec fn in_entry_order(results: Seq<BatchItemResult>) -> bool {
    sort::in_order(results)
}

/// The results of the entry with this index, in the order in which they came.
pub open spec fn results_of(results: Seq<BatchItemResult>, index: usize) -> Seq<BatchItemResult> {
    sort::with_key(results, index)
}

/// Whether `r` is the report of a run, from the results of its entries as they
/// came in: the results in the order of the entries, and how many there are of
/// each kind.
pub open spec fn is_report(r: BatchRunReport, results: Seq<BatchItemResult>) -> bool {
    &&& in_entry_order(r.results@)
    &&& r.results@.len() == results.len()
    &&& forall|index: usize| #[trigger] results_of(r.results@, index) == results_of(results, index)
    &&& r.total == results.len()
    &&& r.succeeded == success_count(results)
    &&& r.failed == r.total - r.succeeded
}

/// The report of a run, from the results of its entries as they came in.
pub fn finish_batch(results: Vec<BatchItemResult>) -> (r: BatchRunReport)
    ensures
        is_report(r, results@),
{
    let total: usize = results.len();
    let mut succeeded: usize = 0;
    let mut i: usize = 0;
    assert(results@.take(0) == Seq::<BatchItemResult>::empty());
    while i < results.len()
        invariant
            i <= results@.len(),
            succeeded <= i,
            succeeded == success_count(results@.take(i as int)),
        decreases results@.len() - i,
    {
        proof {
            lemma_count_push(results@.take(i as int), results@[i as int]);
            assert(results@.take(i + 1) == results@.take(i as int).push(results@[i as int]));
        }
        if results[i].is_success() {
            succeeded = succeeded + 1;
        }
        i = i + 1;
    }
    assert(results@.take(i as int) == results@);
    let sorted: Vec<BatchItemResult> = sort::sort_stably(results);
    assert forall|index: usize| #[trigger]
        results_of(sorted@, index) == results_of(results@, index) by {
        assert(sort::with_key(sorted@, index) == sort::with_key(results@, index));
    }
    BatchRunReport { total, succeeded, failed: total - succeeded, results: sorted }
}

proof fn lemma_all_succeeded(s: Seq<BatchItemResult>)
    ensures
        success_count(s) <= s.len(),
        success_count(s) == s.len() <==> forall|i: int|
            0 <= i < s.len() ==> (#[trigger] s[i]).error is None,
    decreases s.len(),
{
    if s.len() > 0 {
        let rest = s.drop_last();
        lemma_all_succeeded(rest);
        if forall|i: int| 0 <= i < s.len() ==> (#[trigger] s[i]).error is None {
            assert forall|i: int| 0 <= i < rest.len() implies (#[trigger] rest[i]).error is None by {
                assert(s[i].error is None);
            }
            assert(s[s.len() - 1].error is None);
        }
        if success_count(s) == s.len() {
            assert forall|i: int| 0 <= i < s.len() implies (#[trigger] s[i]).error is None by {
                if i < rest.len() {
                    assert(rest[i].error is None);
                }
            }
        }
    }
}

/// A run counts as failed exactly if one of its results is an error.
pub proof fn law_failure_is_reported(r: BatchRunReport, results: Seq<BatchItemResult>)
    requires
        is_report(r, results),
    ensures
        r.failed > 0 <==> exists|i: int|
            0 <= i < results.len() && (#[trigger] results[i]).error is Some,
{
    lemma_all_succeeded(results);
}

proof fn lemma_entries_in_place(sorted: Seq<BatchItemResult>, n: int)
    requires
        in_entry_order(sorted),
        0 <= n <= sorted.len() <= usize::MAX,
        forall|index: usize|
            index < sorted.len() ==> (#[trigger] results_of(sorted, index)).len() == 1,
    ensures
        forall|i: int| 0 <= i < n ==> (#[trigger] sorted[i]).index == i,
    decreases n,
{
    if n > 0 {
        let k = n - 1;
        lemma_entries_in_place(sorted, k);
        if forall|p: int| 0 <= p < sorted.len() ==> (#[trigger] sorted[p]).index != k {
            assert(results_of(sorted, k as usize).len() == 1);
            sort::lemma_none_with_key(sorted, k as usize);
        }
        let p = choose|p: int| 0 <= p < sorted.len() && (#[trigger] sorted[p]).index == k;
        if p > k {
            assert(!BatchItemResult::precedes(sorted[p].key(), sorted[k].key()));
        }
        assert(sorted[k].index <= k);
        if k > 0 {
            assert(!BatchItemResult::precedes(sorted[k].key(), sorted[k - 1].key()));
            assert(sorted[k - 1].index == k - 1);
            if sorted[k].index == k - 1 {
                assert(results_of(sorted, (k - 1) as usize).len() == 1);
                sort::lemma_two_with_key(sorted, k - 1, k);
            }
        }
    }
}

/// Where each entry of a run gave one result, the report holds at each place the
/// result of the entry with that index.
pub proof fn law_report_has_each_entry_in_place(
    r: BatchRunReport,
    results: Seq<BatchItemResult>,
)
    requires
        is_report(r, results),
        forall|index: usize|
            index < results.len() ==> (#[trigger] results_of(results, index)).len() == 1,
    ensures
        r.results@.len() == results.len(),
        forall|i: int|
            0 <= i < results.len() ==> (#[trigger] r.results@[i]).index == i && results_of(
                results,
                i as usize,
            ) == seq![r.results@[i]],
{
    let sorted = r.results@;
    assert forall|index: usize| index < sorted.len() implies (#[trigger] results_of(
        sorted,
        index,
    )).len() == 1 by {
        assert(results_of(results, index).len() == 1);
    }
    lemma_entries_in_place(sorted, sorted.len() as int);
    assert forall|i: int| 0 <= i < results.len() implies (#[trigger] sorted[i]).index == i
        && results_of(results, i as usize) == seq![sorted[i]] by {
        let found = results_of(sorted, i as usize);
        sorted.lemma_filter_contains(|x: BatchItemResult| x.key() == i as usize, i);
        assert(found.contains(sorted[i]));
        assert(found == results_of(results, i as usize));
        assert(found =~= seq![sorted[i]]);
    }
}

/// The error that a run with failed entries ends with.
pub fn batch_failure(report: &BatchRunReport) -> (r: Option<SyncError>)
    ensures
        r is Some <==> report.failed > 0,
        r matches Some(e) ==> e.is_protocol(
            "batch sync completed with "@ + text::decimal(report.failed as nat)
                + " failed entries"@,
        ),
{
    if !report.any_failed() {
        return None;
    }
    let mut m: String = "batch sync completed with ".to_owned();
    m.append(text::u64_text(report.failed as u64).as_str());
    m.append(" failed entries");
    Some(SyncError::Protocol(m))
}

// ---------------------------------------------------------------------------
// What a manifest, a delay and a report come to
// ---------------------------------------------------------------------------

/// An entry is known by its own name, and without one by its origin and its replica
/// with an arrow between them.
pub proof fn law_entry_is_known_by_its_name(entry: BatchSyncSpec)
    ensures
        entry.name matches Some(name) ==> entry.id() == name@,
        entry.name is None ==> entry.id().len() == entry.origin@.len() + 4 + entry.replica@.len()
            && entry.origin@.is_prefix_of(entry.id()) && entry.replica@.is_suffix_of(entry.id())
            && entry.id().subrange(entry.origin@.len() as int, entry.origin@.len() as int + 4)
            == " -> "@,
{
    reveal_strlit(" -> ");
    if entry.name is None {
        let n = entry.origin@.len() as int;
        assert(entry.id().subrange(n, n + 4) =~= " -> "@);
        assert(entry.origin@.is_prefix_of(entry.id()));
        assert(entry.replica@.is_suffix_of(entry.id()));
    }
}

/// A requested format is kept, whatever the file is called.
pub proof fn law_requested_format_is_kept(format: ManifestFormat, extension: Option<Seq<char>>)
    requires
        format != ManifestFormat::Auto,
    ensures
        effective_format(format, extension) == format,
{
}

/// Without a request the extension of the file tells the format, in any letter case;
/// another extension, or none, leaves it open.
pub proof fn law_extension_tells_the_format(e: Seq<char>)
    ensures
        ({
            let found = effective_format(ManifestFormat::Auto, Some(e));
            let low = text::ascii_lowered(e);
            &&& low == "json"@ ==> found == ManifestFormat::Json
            &&& low == "yaml"@ || low == "yml"@ ==> found == ManifestFormat::Yaml
            &&& low == "toml"@ ==> found == ManifestFormat::Toml
            &&& low != "json"@ && low != "yaml"@ && low != "yml"@ && low != "toml"@ ==> found
                == ManifestFormat::Auto
        }),
        effective_format(ManifestFormat::Auto, None) == ManifestFormat::Auto,
{
    reveal_strlit("json");
    reveal_strlit("yaml");
    reveal_strlit("yml");
    reveal_strlit("toml");
    assert("json"@[0] == 'j' && "yaml"@[0] == 'y' && "toml"@[0] == 't' && "yml"@[0] == 'y');
    assert("yaml"@.len() == 4 && "yml"@.len() == 3);
}

/// An entry that can be synchronised: its origin and replica hold more than white
/// space, a timeout is positive, a jitter is at most the whole, and a positive
/// maximal backoff is no less than the backoff.
pub open spec fn is_runnable(e: BatchSyncSpec) -> bool {
    &&& exists|i: int| 0 <= i < e.origin@.len() && !text::is_space(#[trigger] e.origin@[i])
    &&& exists|i: int| 0 <= i < e.replica@.len() && !text::is_space(#[trigger] e.replica@[i])
    &&& e.timeout_secs != Some(0u64)
    &&& (e.retry_jitter_pct matches Some(pct) ==> pct <= 100)
    &&& ((e.retry_backoff_ms is Some && e.retry_backoff_max_ms is Some) ==> (
    e.retry_backoff_max_ms->0 == 0 || e.retry_backoff_ms->0 <= e.retry_backoff_max_ms->0))
}

/// A text is blank exactly if it holds nothing but white space.
proof fn lemma_blank(s: Seq<char>)
    ensures
        text::trimmed(s).len() == 0 <==> !(exists|i: int|
            0 <= i < s.len() && !text::is_space(#[trigger] s[i])),
{
    text::lemma_blank_text(s);
}

/// An entry is refused exactly if it cannot be synchronised.
pub proof fn law_only_broken_entries_are_refused(entry: BatchSyncSpec)
    ensures
        entry_error(entry) is None <==> is_runnable(entry),
{
    lemma_blank(entry.origin@);
    lemma_blank(entry.replica@);
}

proof fn lemma_entries_error(path: Seq<char>, entries: Seq<BatchSyncSpec>, i: int, bad: int)
    requires
        0 <= i <= bad <= entries.len(),
        forall|j: int| i <= j < bad ==> entry_error(#[trigger] entries[j]) is None,
        bad < entries.len() ==> entry_error(entries[bad]) is Some,
    ensures
        entries_error(path, entries, i) == if bad < entries.len() {
            Some(
                "batch manifest "@ + path + " entry "@ + text::decimal(bad as nat) + entry_error(
                    entries[bad],
                )->0,
            )
        } else {
            None
        },
    decreases entries.len() - i,
{
    if i < bad {
        assert(entry_error(entries[i]) is None);
        lemma_entries_error(path, entries, i + 1, bad);
    }
}

/// Entries that can all be synchronised are accepted, all of them and as they are,
/// where the format is given or told by the extension.
pub proof fn law_runnable_entries_are_accepted(
    path: Seq<char>,
    format: ManifestFormat,
    extension: Option<Seq<char>>,
    parses: ManifestParses,
    entries: Seq<BatchSyncSpec>,
)
    requires
        entries.len() > 0,
        forall|j: int| 0 <= j < entries.len() ==> is_runnable(#[trigger] entries[j]),
        ({
            let f = effective_format(format, extension);
            let good = Ok::<Seq<BatchSyncSpec>, Seq<char>>(entries);
            ||| f == ManifestFormat::Json && parse_view(parses.json) == good
            ||| f == ManifestFormat::Yaml && parse_view(parses.yaml) == good
            ||| f == ManifestFormat::Toml && parse_view(parses.toml) == good
            ||| f == ManifestFormat::Auto && parse_view(parses.json) == good
            ||| f == ManifestFormat::Auto && parses.json is Err && parse_view(parses.yaml) == good
            ||| f == ManifestFormat::Auto && parses.json is Err && parses.yaml is Err && parse_view(
                parses.toml,
            ) == good
        }),
    ensures
        manifest_meaning(path, format, extension, parses) == Ok::<Seq<BatchSyncSpec>, Seq<char>>(
            entries,
        ),
{
    assert forall|j: int| 0 <= j < entries.len() implies entry_error(
        #[trigger] entries[j],
    ) is None by {
        law_only_broken_entries_are_refused(entries[j]);
    }
    lemma_entries_error(path, entries, 0, entries.len() as int);
}

/// A manifest with a broken entry is refused, and the first such entry is named by
/// its index; one without entries is refused as well.
pub proof fn law_first_broken_entry_is_named(
    path: Seq<char>,
    format: ManifestFormat,
    parses: ManifestParses,
    entries: Seq<BatchSyncSpec>,
    bad: int,
)
    requires
        format == ManifestFormat::Json,
        parse_view(parses.json) == Ok::<Seq<BatchSyncSpec>, Seq<char>>(entries),
        0 <= bad < entries.len() || entries.len() == 0,
        forall|j: int| 0 <= j < bad ==> is_runnable(#[trigger] entries[j]),
        entries.len() > 0 ==> !is_runnable(entries[bad]),
    ensures
        manifest_meaning(path, format, None, parses) matches Err(e) && (entries.len() > 0 ==> (
        "batch manifest "@ + path + " entry "@ + text::decimal(bad as nat)).is_prefix_of(e)),
{
    if entries.len() > 0 {
        assert forall|j: int| 0 <= j < bad implies entry_error(#[trigger] entries[j]) is None by {
            law_only_broken_entries_are_refused(entries[j]);
        }
        law_only_broken_entries_are_refused(entries[bad]);
        lemma_entries_error(path, entries, 0, bad);
        let head = "batch manifest "@ + path + " entry "@ + text::decimal(bad as nat);
        assert(head.is_prefix_of(head + entry_error(entries[bad])->0));
    }
}

/// A text that is not of the format to read it in is refused, with what its parser
/// says; without a format, with what each of the three says.
pub proof fn law_unreadable_manifest_is_refused(
    path: Seq<char>,
    format: ManifestFormat,
    extension: Option<Seq<char>>,
    parses: ManifestParses,
)
    requires
        ({
            let f = effective_format(format, extension);
            ||| f == ManifestFormat::Json && parses.json is Err
            ||| f == ManifestFormat::Yaml && parses.yaml is Err
            ||| f == ManifestFormat::Toml && parses.toml is Err
            ||| parses.json is Err && parses.yaml is Err && parses.toml is Err
        }),
    ensures
        manifest_meaning(path, format, extension, parses) is Err,
{
}

proof fn lemma_two_to(e: nat)
    ensures
        two_to(e) == vstd::arithmetic::power2::pow2(e),
    decreases e,
{
    vstd::arithmetic::power2::lemma2_to64();
    if e > 0 {
        lemma_two_to((e - 1) as nat);
        vstd::arithmetic::power2::lemma_pow2_unfold(e);
    }
}

/// Without jitter the delay after the attempt with number `n` is the base, doubled
/// `n - 1` times but no more than 31 times, and never above a maximum; there is none
/// where that is nothing.
pub proof fn law_delay_is_the_doubled_base(
    base_ms: nat,
    max_ms: Option<nat>,
    attempt: u32,
    entropy: u128,
)
    requires
        attempt >= 1,
    ensures
        ({
            let times = if attempt <= 32 {
                (attempt - 1) as nat
            } else {
                31
            };
            let doubled = base_ms * vstd::arithmetic::power2::pow2(times);
            let wanted = match max_ms {
                Some(max) if max < doubled => max,
                _ => doubled,
            };
            match retry_delay_ms(base_ms, max_ms, 0, attempt, entropy) {
                None => wanted == 0,
                Some(ms) => wanted > 0 && ms == if wanted <= u64::MAX {
                    wanted
                } else {
                    u64::MAX as nat
                },
            }
        }),
{
    let times = backoff_exponent(attempt);
    lemma_two_to(times);
    let delay = plain_delay(base_ms, max_ms, attempt);
    assert((delay * 0) as nat / 100 == 0) by (nonlinear_arith);
    assert((entropy as nat) % 1 == 0);
}

/// Jitter can lower a delay by its whole percentage, and raise it by as much.
pub proof fn law_jitter_reaches_both_ends(base_ms: nat, jitter_pct: u8, attempt: u32, entropy: u128)
    requires
        base_ms > 0,
        jitter_pct <= 100,
        ({
            let delay = plain_delay(base_ms, None, attempt);
            &&& delay + delay * jitter_pct / 100 <= u64::MAX
            &&& entropy == 2 * (delay * jitter_pct / 100)
        }),
    ensures
        ({
            let delay = plain_delay(base_ms, None, attempt);
            let span = delay * jitter_pct / 100;
            &&& retry_delay_ms(base_ms, None, jitter_pct, attempt, 0) == Some((delay - span) as nat)
            &&& retry_delay_ms(base_ms, None, jitter_pct, attempt, entropy) == Some(
                (delay + span) as nat,
            )
        }),
{
    let delay = plain_delay(base_ms, None, attempt);
    let span = jitter_span(delay, jitter_pct);
    vstd::arithmetic::power2::lemma_pow2_pos(backoff_exponent(attempt));
    lemma_two_to(backoff_exponent(attempt));
    assert(base_ms * two_to(backoff_exponent(attempt)) > 0) by (nonlinear_arith)
        requires
            base_ms > 0,
            two_to(backoff_exponent(attempt)) > 0,
    ;
    assert(span <= delay) by (nonlinear_arith)
        requires
            span == (delay * jitter_pct) as nat / 100,
            jitter_pct <= 100,
    ;
    assert(0nat % (2 * span + 1) as nat == 0) by (nonlinear_arith);
    assert((2 * span) as nat % (2 * span + 1) as nat == 2 * span) by (nonlinear_arith);
}

/// The backoff of an entry wins over that of the run; one of nothing is none, and the
/// run's counts only where the entry says nothing.
pub proof fn law_own_backoff_wins(own: Option<u64>, default: Option<Duration>, ms: u64)
    ensures
        own matches Some(n) ==> (n > 0 ==> (effective_backoff(own, default) matches Some(d)
            && d.millis() == n)),
        own == Some(0u64) ==> effective_backoff(own, default) is None,
        own is None && default is None ==> effective_backoff(own, default) is None,
        ms > 0 ==> (effective_backoff(None, Some(Duration::of_millis(ms))) matches Some(d)
            && d.millis() == ms),
        effective_backoff(None, Some(Duration::of_millis(0))) is None,
{
    Duration::law_span_of_millis(ms);
    Duration::law_span_of_millis(0);
    if own is Some {
        Duration::law_span_of_millis(own->0);
    }
}

/// A setting of an entry wins over that of the run.
pub proof fn law_own_setting_wins<T>(own: T, default: T)
    ensures
        value_or(Some(own), default) == own,
        value_or(None, default) == default,
{
}

/// A retry waits for the backoff of its settings: without one it does not wait, and
/// with one and no jitter it first waits for just that.
pub proof fn law_retry_waits_for_its_backoff(settings: EntrySettings, ms: u64, entropy: u128)
    requires
        ms > 0,
        settings.backoff_jitter_pct == 0,
        settings.backoff_max is None,
    ensures
        settings.backoff_base is None ==> delay_before_retry(settings, 1, entropy) is None,
        settings.backoff_base == Some(Duration::of_millis(ms)) ==> (delay_before_retry(
            settings,
            1,
            entropy,
        ) matches Some(d) && d.millis() == ms),
{
    Duration::law_span_of_millis(ms);
    law_delay_is_the_doubled_base(ms as nat, None, 1, entropy);
    vstd::arithmetic::power2::lemma2_to64();
    assert(ms * 1 == ms);
}

proof fn lemma_success_count(results: Seq<BatchItemResult>)
    ensures
        success_count(results) == results.filter(|x: BatchItemResult| x.error is None).len(),
        success_count(results) <= results.len(),
    decreases results.len(),
{
    reveal(Seq::filter);
    if results.len() > 0 {
        lemma_success_count(results.drop_last());
    }
}

/// A report counts the results: as many succeeded as have no error, and the others
/// failed.
pub proof fn law_report_counts_its_results(r: BatchRunReport, results: Seq<BatchItemResult>)
    requires
        is_report(r, results),
    ensures
        r.total == results.len(),
        r.succeeded == results.filter(|x: BatchItemResult| x.error is None).len(),
        r.succeeded + r.failed == r.total,
{
    lemma_success_count(results);
}

/// What is wrong with an entry is told: the first of the things that can be.
pub proof fn law_refused_entry_is_told_why(entry: BatchSyncSpec)
    ensures
        ({
            let no_origin = text::all_spaces(entry.origin@);
            let no_replica = text::all_spaces(entry.replica@);
            let named = !no_origin && !no_replica;
            let no_time = entry.timeout_secs == Some(0u64);
            let wild = entry.retry_jitter_pct matches Some(pct) && pct > 100;
            &&& no_origin ==> entry_error(entry) == Some(" has empty origin"@)
            &&& !no_origin && no_replica ==> entry_error(entry) == Some(" has empty replica"@)
            &&& named && no_time ==> entry_error(entry) == Some(
                " timeout_secs must be greater than 0"@,
            )
            &&& named && !no_time && wild ==> entry_error(entry) == Some(
                " retry_jitter_pct must be between 0 and 100"@,
            )
            &&& named && !no_time && !wild && !is_runnable(entry) ==> entry_error(entry) == Some(
                " retry_backoff_max_ms must be >= retry_backoff_ms"@,
            )
        }),
{
    text::lemma_blank_text(entry.origin@);
    text::lemma_blank_text(entry.replica@);
    lemma_blank(entry.origin@);
    lemma_blank(entry.replica@);
}

/// A parser's error is told with the path and the format; where the format is open,
/// all three are told.
pub proof fn law_parse_errors_are_told(path: Seq<char>, j: String, y: String, t: String)
    ensures
        ({
            let parses = ManifestParses { json: Err(j), yaml: Err(y), toml: Err(t) };
            let head = "failed parsing batch manifest "@ + path;
            let json = head + " as json: "@ + j@;
            let yaml = head + " as yaml: "@ + y@;
            let toml = head + " as toml: "@ + t@;
            &&& manifest_meaning(path, ManifestFormat::Json, None, parses) == Err::<
                Seq<BatchSyncSpec>,
                Seq<char>,
            >(json)
            &&& manifest_meaning(path, ManifestFormat::Yaml, None, parses) == Err::<
                Seq<BatchSyncSpec>,
                Seq<char>,
            >(yaml)
            &&& manifest_meaning(path, ManifestFormat::Toml, None, parses) == Err::<
                Seq<BatchSyncSpec>,
                Seq<char>,
            >(toml)
            &&& manifest_meaning(path, ManifestFormat::Auto, None, parses) == Err::<
                Seq<BatchSyncSpec>,
                Seq<char>,
            >(
                head + " with auto format detection; json error: "@ + json + "; yaml error: "@
                    + yaml + "; toml error: "@ + toml,
            )
        }),
{
    reveal_strlit(" as ");
    reveal_strlit(": ");
    reveal_strlit("json");
    reveal_strlit("yaml");
    reveal_strlit("toml");
    reveal_strlit(" as json: ");
    reveal_strlit(" as yaml: ");
    reveal_strlit(" as toml: ");
    let head = "failed parsing batch manifest "@ + path;
    assert(" as "@ + "json"@ + ": "@ =~= " as json: "@);
    assert(" as "@ + "yaml"@ + ": "@ =~= " as yaml: "@);
    assert(" as "@ + "toml"@ + ": "@ =~= " as toml: "@);
    assert(parse_error(path, "json"@, j@) =~= head + (" as "@ + "json"@ + ": "@) + j@);
    assert(parse_error(path, "yaml"@, y@) =~= head + (" as "@ + "yaml"@ + ": "@) + y@);
    assert(parse_error(path, "toml"@, t@) =~= head + (" as "@ + "toml"@ + ": "@) + t@);
}

/// The number of the last attempt on an entry of which the attempt with this number
/// and all further ones fail.
pub open spec fn last_try(attempt: u32, attempt_count: u32) -> u32
    decreases attempt_count - attempt,
{
    if tries_again(attempt, attempt_count, true) && attempt < attempt_count {
        last_try((attempt + 1) as u32, attempt_count)
    } else {
        attempt
    }
}

proof fn lemma_last_try(attempt: u32, attempt_count: u32)
    requires
        attempt <= attempt_count,
    ensures
        last_try(attempt, attempt_count) == attempt_count,
    decreases attempt_count - attempt,
{
    if attempt < attempt_count {
        lemma_last_try((attempt + 1) as u32, attempt_count);
    }
}

/// An entry that keeps failing is tried once and then as often again as it has
/// retries; success ends it at once.
pub proof fn law_entry_is_retried_as_often_as_set(retries: u32, attempt: u32)
    ensures
        retries < u32::MAX ==> last_try(1, attempts_for(retries)) == retries + 1,
        last_try(1, attempts_for(u32::MAX)) == u32::MAX,
        !tries_again(attempt, attempts_for(retries), false),
{
    lemma_last_try(1, attempts_for(retries));
    lemma_last_try(1, attempts_for(u32::MAX));
}

/// A dry run changes nothing: it compares two local databases and does nothing else.
/// Any other run synchronises, from the origin to the replica.
pub proof fn law_dry_run_changes_nothing(
    work: AttemptWork,
    origin: crate::endpoint::EndpointView,
    replica: crate::endpoint::EndpointView,
    dry_run: bool,
)
    requires
        is_work(work, origin, replica, dry_run),
    ensures
        work is Sync <==> !dry_run,
        work is CompareLocal <==> dry_run && origin is Local && replica is Local,
        work matches AttemptWork::CompareLocal { origin: o, replica: r } ==> origin
            == crate::endpoint::EndpointView::Local(o@) && replica
            == crate::endpoint::EndpointView::Local(r@),
        work matches AttemptWork::Sync(route) ==> {
            &&& route is Local <==> origin is Local && replica is Local
            &&& route is Push <==> origin is Local && replica is Remote
            &&& route is Pull <==> origin is Remote && replica is Local
        },
        !(origin is Remote && replica is Remote),
{
    match work {
        AttemptWork::Sync(route) => {
            crate::endpoint::law_route_leads_from_origin_to_replica(route, origin, replica);
        },
        _ => {},
    }
}

/// Jitter moves a delay with what it is drawn from: from the lowest delay up by one
/// millisecond for each step, and round again, with a maximum or without.
pub proof fn law_jitter_moves_with_its_draw(
    base_ms: nat,
    max_ms: Option<nat>,
    jitter_pct: u8,
    attempt: u32,
    k: u128,
)
    requires
        base_ms > 0,
        max_ms != Some(0nat),
        jitter_pct <= 100,
        ({
            let delay = plain_delay(base_ms, max_ms, attempt);
            let span = delay * jitter_pct / 100;
            &&& delay + span <= u64::MAX
            &&& k <= 2 * span
        }),
    ensures
        ({
            let delay = plain_delay(base_ms, max_ms, attempt);
            let span = delay * jitter_pct / 100;
            let again = (k + 2 * span + 1) as u128;
            &&& retry_delay_ms(base_ms, max_ms, jitter_pct, attempt, k) == Some(
                (delay - span + k) as nat,
            )
            &&& retry_delay_ms(base_ms, max_ms, jitter_pct, attempt, again) == Some(
                (delay - span + k) as nat,
            )
        }),
{
    let delay = plain_delay(base_ms, max_ms, attempt);
    let span = jitter_span(delay, jitter_pct);
    vstd::arithmetic::power2::lemma_pow2_pos(backoff_exponent(attempt));
    lemma_two_to(backoff_exponent(attempt));
    assert(base_ms * two_to(backoff_exponent(attempt)) > 0) by (nonlinear_arith)
        requires
            base_ms > 0,
            two_to(backoff_exponent(attempt)) > 0,
    ;
    assert(span <= delay) by (nonlinear_arith)
        requires
            span == (delay * jitter_pct) as nat / 100,
            jitter_pct <= 100,
    ;
    let n = (2 * span + 1) as nat;
    let kk = k as nat;
    assert(kk % n == kk) by (nonlinear_arith)
        requires
            kk < n,
    ;
    assert((kk + n) as nat % n == kk) by (nonlinear_arith)
        requires
            kk < n,
    ;
}

/// The page sizes fit exactly where a replica with pages of its own size would not be
/// refused by the origin.
pub proof fn law_sizes_fit_as_in_a_session(origin: u32, replica: u32, db: Seq<Seq<u8>>)
    requires
        replica > 0,
    ensures
        sizes_fit(origin, None),
        sizes_fit(origin, Some(replica)) <==> !(crate::protocol::origin::on_hello(
            origin,
            db,
            crate::protocol::messages::MessageView::Hello {
                version: 2,
                page_size: replica,
                page_count: 0,
            },
        ).1 is PageSizeMismatch),
{
}

} // verus!
