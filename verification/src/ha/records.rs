//! The on-disk text forms of lease and freshness records.
use vstd::prelude::*;

use crate::error::concat;
use crate::ha::policy::{FreshnessLedger, LeaseRecord};
use crate::kv_text;
use crate::kv_text::{parse_kv_lines, require_non_empty, require_u64, KvMap};
use crate::text;

verus! {

/// The content of a [`LeaseRecord`].
#[verifier::ext_equal]
pub struct LeaseView {
    pub holder_node_id: Seq<char>,
    pub generation: nat,
    pub renewed_at_secs: nat,
    pub ttl_secs: nat,
}

impl View for LeaseRecord {
    type V = LeaseView;

    open spec fn view(&self) -> LeaseView {
        LeaseView {
            holder_node_id: self.holder_node_id@,
            generation: self.generation as nat,
            renewed_at_secs: self.renewed_at_secs as nat,
            ttl_secs: self.ttl_secs as nat,
        }
    }
}

/// The content of a [`FreshnessLedger`].
#[verifier::ext_equal]
pub struct FreshnessView {
    pub source_node_id: Seq<char>,
    pub source_generation: nat,
    pub synced_at_secs: nat,
}

impl View for FreshnessLedger {
    type V = FreshnessView;

    open spec fn view(&self) -> FreshnessView {
        FreshnessView {
            source_node_id: self.source_node_id@,
            source_generation: self.source_generation as nat,
            synced_at_secs: self.synced_at_secs as nat,
        }
    }
}

/// The text form of a lease: one `key=value` line per field.
pub open spec fn lease_text(lease: LeaseView) -> Seq<char> {
    "holder_node_id="@ + lease.holder_node_id + "\ngeneration="@ + text::decimal(lease.generation)
        + "\nrenewed_at_secs="@ + text::decimal(lease.renewed_at_secs) + "\nttl_secs="@
        + text::decimal(lease.ttl_secs) + "\n"@
}

/// The keys of a lease record.
pub open spec fn lease_keys() -> Seq<Seq<char>> {
    seq!["holder_node_id"@, "generation"@, "renewed_at_secs"@, "ttl_secs"@]
}

/// The keys of a freshness record.
pub open spec fn freshness_keys() -> Seq<Seq<char>> {
    seq!["source_node_id"@, "source_generation"@, "synced_at_secs"@]
}

/// The lease that a set of fields describes, or why there is none.
pub open spec fn lease_of(map: Map<Seq<char>, Seq<char>>) -> Result<LeaseView, Seq<char>> {
    match kv_text::text_field(map, "holder_node_id"@) {
        Err(e) => Err(e),
        Ok(holder_node_id) => match kv_text::u64_field(map, "generation"@) {
            Err(e) => Err(e),
            Ok(generation) => match kv_text::u64_field(map, "renewed_at_secs"@) {
                Err(e) => Err(e),
                Ok(renewed_at_secs) => match kv_text::u64_field(map, "ttl_secs"@) {
                    Err(e) => Err(e),
                    Ok(ttl_secs) => Ok(
                        LeaseView { holder_node_id, generation, renewed_at_secs, ttl_secs },
                    ),
                },
            },
        },
    }
}

/// The lease that a text describes, or why there is none.
pub open spec fn lease_meaning(input: Seq<char>) -> Result<LeaseView, Seq<char>> {
    match kv_text::kv_meaning("lease"@, input, lease_keys()) {
        Err(e) => Err(e),
        Ok(map) => lease_of(map),
    }
}

/// The freshness record that a text describes, or why there is none.
pub open spec fn freshness_meaning(input: Seq<char>) -> Result<FreshnessView, Seq<char>> {
    match kv_text::kv_meaning("freshness"@, input, freshness_keys()) {
        Err(e) => Err(e),
        Ok(map) => match kv_text::text_field(map, "source_node_id"@) {
            Err(e) => Err(e),
            Ok(source_node_id) => match kv_text::u64_field(map, "source_generation"@) {
                Err(e) => Err(e),
                Ok(source_generation) => match kv_text::u64_field(map, "synced_at_secs"@) {
                    Err(e) => Err(e),
                    Ok(synced_at_secs) => Ok(
                        FreshnessView { source_node_id, source_generation, synced_at_secs },
                    ),
                },
            },
        },
    }
}

/// Serialize a lease record to the file format consumed by [`FileLeaseReader`].
pub fn serialize_lease_record(lease: &LeaseRecord) -> (r: String)
    ensures
        r@ == lease_text(lease@),
{
    let mut s: String = "holder_node_id=".to_owned();
    s.append(lease.holder_node_id.as_str());
    s.append("\ngeneration=");
    s.append(text::u64_text(lease.generation).as_str());
    s.append("\nrenewed_at_secs=");
    s.append(text::u64_text(lease.renewed_at_secs).as_str());
    s.append("\nttl_secs=");
    s.append(text::u64_text(lease.ttl_secs).as_str());
    s.append("\n");
    s
}

/// Parse a lease record from key-value text.
pub fn parse_lease_record(input: &str) -> (r: Result<LeaseRecord, String>)
    ensures
        match r {
            Ok(lease) => lease_meaning(input@) == Ok::<LeaseView, Seq<char>>(lease@),
            Err(e) => lease_meaning(input@) == Err::<LeaseView, Seq<char>>(e@),
        },
{
    let keys: [&str; 4] = ["holder_node_id", "generation", "renewed_at_secs", "ttl_secs"];
    assert(kv_text::str_views(keys@) == lease_keys());
    let map: KvMap = match parse_kv_lines("lease", input, keys.as_slice()) {
        Ok(m) => m,
        Err(e) => {
            return Err(e);
        },
    };
    let holder_node_id: String = match require_non_empty(&map, "holder_node_id") {
        Ok(v) => v,
        Err(e) => {
            return Err(e);
        },
    };
    let generation: u64 = match require_u64(&map, "generation") {
        Ok(v) => v,
        Err(e) => {
            return Err(e);
        },
    };
    let renewed_at_secs: u64 = match require_u64(&map, "renewed_at_secs") {
        Ok(v) => v,
        Err(e) => {
            return Err(e);
        },
    };
    let ttl_secs: u64 = match require_u64(&map, "ttl_secs") {
        Ok(v) => v,
        Err(e) => {
            return Err(e);
        },
    };
    Ok(LeaseRecord { holder_node_id, generation, renewed_at_secs, ttl_secs })
}

/// Parse a freshness ledger record from key-value text, using the same format
/// and conventions as [`parse_lease_record`].
pub fn parse_freshness_ledger(input: &str) -> (r: Result<FreshnessLedger, String>)
    ensures
        match r {
            Ok(f) => freshness_meaning(input@) == Ok::<FreshnessView, Seq<char>>(f@),
            Err(e) => freshness_meaning(input@) == Err::<FreshnessView, Seq<char>>(e@),
        },
{
    let keys: [&str; 3] = ["source_node_id", "source_generation", "synced_at_secs"];
    assert(kv_text::str_views(keys@) == freshness_keys());
    let map: KvMap = match parse_kv_lines("freshness", input, keys.as_slice()) {
        Ok(m) => m,
        Err(e) => {
            return Err(e);
        },
    };
    let source_node_id: String = match require_non_empty(&map, "source_node_id") {
        Ok(v) => v,
        Err(e) => {
            return Err(e);
        },
    };
    let source_generation: u64 = match require_u64(&map, "source_generation") {
        Ok(v) => v,
        Err(e) => {
            return Err(e);
        },
    };
    let synced_at_secs: u64 = match require_u64(&map, "synced_at_secs") {
        Ok(v) => v,
        Err(e) => {
            return Err(e);
        },
    };
    Ok(FreshnessLedger { source_node_id, source_generation, synced_at_secs })
}

/// The lease that the content of a lease file holds: a missing file and content
/// without a record mean that there is none.
pub open spec fn lease_in_file(content: Option<Seq<char>>) -> Result<
    Option<LeaseView>,
    Seq<char>,
> {
    match content {
        None => Ok(None),
        Some(c) => match kv_text::record_text(c) {
            None => Ok(None),
            Some(record) => match lease_meaning(record) {
                Ok(lease) => Ok(Some(lease)),
                Err(e) => Err(e),
            },
        },
    }
}

/// File-backed lease reader for host-level integrations and testing.
///
/// Supported on-disk lease format (key-value lines, order-independent):
/// holder_node_id=<id>
/// generation=<u64>
/// renewed_at_secs=<u64>
/// ttl_secs=<u64>
#[derive(Debug, Clone)]
pub struct FileLeaseReader {
    lease_path: String,
}

impl FileLeaseReader {
    /// The path of the lease file.
    pub closed spec fn path(self) -> Seq<char> {
        self.lease_path@
    }

    pub fn new(lease_path: &str) -> (r: FileLeaseReader)
        ensures
            r.path() == lease_path@,
    {
        FileLeaseReader { lease_path: lease_path.to_owned() }
    }

    pub fn lease_path(&self) -> (r: &str)
        ensures
            r@ == self.path(),
    {
        self.lease_path.as_str()
    }

    /// The lease that the content of the lease file holds, where the file
    /// exists.
    pub fn lease_from_content(&self, content: Option<&str>) -> (r: Result<
        Option<LeaseRecord>,
        String,
    >)
        ensures
            ({
                let meaning = lease_in_file(
                    match content {
                        Some(c) => Some(c@),
                        None => None,
                    },
                );
                match r {
                    Ok(Some(lease)) => meaning == Ok::<Option<LeaseView>, Seq<char>>(Some(lease@)),
                    Ok(None) => meaning == Ok::<Option<LeaseView>, Seq<char>>(None),
                    Err(e) => meaning == Err::<Option<LeaseView>, Seq<char>>(e@),
                }
            }),
    {
        match kv_text::read_optional_kv_text(content) {
            None => Ok(None),
            Some(record) => match parse_lease_record(record.as_str()) {
                Ok(lease) => Ok(Some(lease)),
                Err(e) => Err(e),
            },
        }
    }

    /// The error for a lease file that exists but could not be read.
    pub fn read_error(&self, error: &str) -> (r: String)
        ensures
            r@ == "failed reading lease file: "@ + error@,
    {
        concat("failed reading lease file: ", error)
    }
}

/// The endpoint of the holder of a lease.
pub open spec fn holder_endpoint(holder: Seq<char>, service: Seq<char>, port: u16) -> Seq<char> {
    let host = if service.len() == 0 {
        holder
    } else {
        holder + "."@ + service
    };
    "http://"@ + host + ":"@ + text::decimal(port as nat)
}

/// The endpoint of the holder of a lease: under its name, and that of the service
/// where there is one.
pub fn endpoint_of_holder(holder: &str, service: &str, port: u16) -> (r: String)
    ensures
        r@ == holder_endpoint(holder@, service@, port),
{
    let mut host: String = holder.to_owned();
    if !service.is_empty() {
        host.append(".");
        host.append(service);
    }
    let mut e: String = "http://".to_owned();
    e.append(host.as_str());
    e.append(":");
    e.append(text::u64_text(port as u64).as_str());
    e
}

// ---------------------------------------------------------------------------
// Round trip
// ---------------------------------------------------------------------------

/// Text that a `key=value` line can carry as a value: it is not empty, does not
/// start or end with white space, and holds neither a line feed nor `=`.
pub open spec fn plain_value(s: Seq<char>) -> bool {
    &&& s.len() > 0
    &&& text::trimmed(s) == s
    &&& !s.contains('\n')
    &&& !s.contains('=')
}

/// A key: not empty, without white space and without `=`.
spec fn plain_key(s: Seq<char>) -> bool {
    s.len() > 0 && forall|i: int|
        0 <= i < s.len() ==> #[trigger] s[i] != '=' && s[i] != '\n' && !text::is_space(s[i])
}

proof fn lemma_value_ends(s: Seq<char>)
    requires
        plain_value(s),
    ensures
        !text::is_space(s[0]),
        !text::is_space(s.last()),
{
    text::lemma_trimmed_ends(s);
}

/// A line that joins a known key and a plain value says just that.
proof fn lemma_line(subject: Seq<char>, key: Seq<char>, value: Seq<char>, allowed: Seq<Seq<char>>)
    requires
        plain_key(key),
        plain_value(value),
        allowed.contains(key),
    ensures
        kv_text::line_meaning(subject, key + seq!['='] + value, allowed) == Ok::<
            Option<(Seq<char>, Seq<char>)>,
            Seq<char>,
        >(Some((key, value))),
        !(key + seq!['='] + value).contains('\n'),
        text::trimmed(key + seq!['='] + value) == key + seq!['='] + value,
{
    let line = key + seq!['='] + value;
    lemma_value_ends(value);
    assert(line[0] == key[0]);
    assert(line.last() == value.last());
    text::lemma_trimmed_fixpoint(line);
    assert forall|j: int| 0 <= j < key.len() implies line[j] != '=' by {
        assert(line[j] == key[j]);
    }
    assert(line[key.len() as int] == '=');
    text::lemma_first_index(line, '=', key.len() as int);
    assert(line.take(key.len() as int) == key);
    assert(line.skip(key.len() as int + 1) == value);
    assert(!text::is_space(key[0]));
    assert(!text::is_space(key[key.len() - 1]));
    text::lemma_trimmed_fixpoint(key);
    if line.contains('\n') {
        let i = choose|i: int| 0 <= i < line.len() && line[i] == '\n';
        if i < key.len() {
            assert(line[i] == key[i]);
        } else if i > key.len() {
            assert(value[i - key.len() - 1] == '\n');
        }
    }
}

/// The pieces of a text that starts with a line.
proof fn lemma_pieces_step(line: Seq<char>, rest: Seq<char>)
    requires
        !line.contains('\n'),
    ensures
        text::pieces(line + seq!['\n'] + rest, '\n') == seq![line] + text::pieces(rest, '\n'),
{
    let s = line + seq!['\n'] + rest;
    assert forall|j: int| 0 <= j < line.len() implies s[j] != '\n' by {
        assert(s[j] == line[j]);
        assert(line.contains(line[j]));
    }
    assert(s[line.len() as int] == '\n');
    text::lemma_first_index(s, '\n', line.len() as int);
    assert(s.take(line.len() as int) == line);
    assert(s.skip(line.len() as int + 1) == rest);
}

/// The one piece of a text without a line feed.
proof fn lemma_pieces_last(line: Seq<char>)
    requires
        !line.contains('\n'),
    ensures
        text::pieces(line, '\n') == seq![line],
{
    assert forall|j: int| 0 <= j < line.len() implies line[j] != '\n' by {
        assert(line.contains(line[j]));
    }
    text::lemma_first_index(line, '\n', line.len() as int);
}

proof fn lemma_decimal_is_plain(n: nat)
    ensures
        plain_value(text::decimal(n)),
{
    text::lemma_decimal_round_trip(n);
    let s = text::decimal(n);
    assert(text::is_digit(s[0]));
    assert(text::is_digit(s[s.len() - 1]));
    text::lemma_trimmed_fixpoint(s);
    if s.contains('\n') {
        let i = choose|i: int| 0 <= i < s.len() && s[i] == '\n';
        assert(text::is_digit(s[i]));
    }
    if s.contains('=') {
        let i = choose|i: int| 0 <= i < s.len() && s[i] == '=';
        assert(text::is_digit(s[i]));
    }
}

proof fn lemma_number_field(map: Map<Seq<char>, Seq<char>>, key: Seq<char>, n: nat)
    requires
        n <= u64::MAX,
        map.contains_key(key),
        map[key] == text::decimal(n),
    ensures
        kv_text::u64_field(map, key) == Ok::<nat, Seq<char>>(n),
{
    text::lemma_decimal_round_trip(n);
    let s = text::decimal(n);
    assert(text::is_digit(s[0]));
    assert(text::without_plus(s) == s);
}

/// The lines of the text form of a lease.
pub open spec fn lease_lines(lease: LeaseView) -> Seq<Seq<char>> {
    lines_of(lease_fields(lease))
}

proof fn lemma_lease_keys_plain()
    ensures
        plain_key("holder_node_id"@),
        plain_key("generation"@),
        plain_key("renewed_at_secs"@),
        plain_key("ttl_secs"@),
        "holder_node_id"@ != "generation"@,
        "holder_node_id"@ != "renewed_at_secs"@,
        "holder_node_id"@ != "ttl_secs"@,
        "generation"@ != "renewed_at_secs"@,
        "generation"@ != "ttl_secs"@,
        "renewed_at_secs"@ != "ttl_secs"@,
        lease_keys().contains("holder_node_id"@),
        lease_keys().contains("generation"@),
        lease_keys().contains("renewed_at_secs"@),
        lease_keys().contains("ttl_secs"@),
{
    reveal_strlit("holder_node_id");
    reveal_strlit("generation");
    reveal_strlit("renewed_at_secs");
    reveal_strlit("ttl_secs");
    assert("holder_node_id"@.len() == 14);
    assert("generation"@.len() == 10);
    assert("renewed_at_secs"@.len() == 15);
    assert("ttl_secs"@.len() == 8);
    assert(lease_keys()[0] == "holder_node_id"@);
    assert(lease_keys()[1] == "generation"@);
    assert(lease_keys()[2] == "renewed_at_secs"@);
    assert(lease_keys()[3] == "ttl_secs"@);
}

/// The keys and values of a lease.
pub open spec fn lease_fields(lease: LeaseView) -> Seq<(Seq<char>, Seq<char>)> {
    seq![
        ("holder_node_id"@, lease.holder_node_id),
        ("generation"@, text::decimal(lease.generation)),
        ("renewed_at_secs"@, text::decimal(lease.renewed_at_secs)),
        ("ttl_secs"@, text::decimal(lease.ttl_secs)),
    ]
}

/// The keys and values of a freshness record.
pub open spec fn freshness_fields(freshness: FreshnessView) -> Seq<(Seq<char>, Seq<char>)> {
    seq![
        ("source_node_id"@, freshness.source_node_id),
        ("source_generation"@, text::decimal(freshness.source_generation)),
        ("synced_at_secs"@, text::decimal(freshness.synced_at_secs)),
    ]
}

/// The line of a key and its value.
pub open spec fn line_of(field: (Seq<char>, Seq<char>)) -> Seq<char> {
    field.0 + seq!['='] + field.1
}

/// One line for each key and its value.
pub open spec fn lines_of(fields: Seq<(Seq<char>, Seq<char>)>) -> Seq<Seq<char>> {
    Seq::new(fields.len(), |i: int| line_of(fields[i]))
}

/// Whether a line is one of `lines`, but for white space around it.
pub open spec fn one_of(raw: Seq<char>, lines: Seq<Seq<char>>) -> bool {
    lines.contains(text::trimmed(raw))
}

/// Whether a list of lines holds a line, but for white space around it.
pub open spec fn holds(raws: Seq<Seq<char>>, line: Seq<char>) -> bool {
    exists|i: int| 0 <= i < raws.len() && text::trimmed(#[trigger] raws[i]) == line
}

/// Whether a text consists of these lines, each at least once and in any order, and
/// of blank lines; white space may surround each of them.
pub open spec fn made_of(input: Seq<char>, lines: Seq<Seq<char>>) -> bool {
    let raws = text::pieces(input, '\n');
    &&& forall|i: int|
        0 <= i < raws.len() ==> text::trimmed(#[trigger] raws[i]).len() == 0 || one_of(
            raws[i],
            lines,
        )
    &&& forall|i: int| 0 <= i < lines.len() ==> holds(raws, #[trigger] lines[i])
}

/// Fields that lines can carry: different known keys, each with a plain value.
spec fn plain_fields(fields: Seq<(Seq<char>, Seq<char>)>, allowed: Seq<Seq<char>>) -> bool {
    &&& forall|i: int|
        0 <= i < fields.len() ==> plain_key((#[trigger] fields[i]).0) && plain_value(fields[i].1)
            && allowed.contains(fields[i].0)
    &&& forall|i: int, j: int|
        0 <= i < j < fields.len() ==> (#[trigger] fields[i]).0 != (#[trigger] fields[j]).0
}

/// What is known agrees with the fields.
spec fn agrees(known: Map<Seq<char>, Seq<char>>, fields: Seq<(Seq<char>, Seq<char>)>) -> bool {
    forall|i: int|
        0 <= i < fields.len() && known.contains_key((#[trigger] fields[i]).0)
            ==> known[fields[i].0] == fields[i].1
}

/// Lines of the fields, in any order and among blank ones, say the fields that they
/// hold and those known before.
proof fn lemma_lines_in_any_order(
    subject: Seq<char>,
    raws: Seq<Seq<char>>,
    allowed: Seq<Seq<char>>,
    fields: Seq<(Seq<char>, Seq<char>)>,
    known: Map<Seq<char>, Seq<char>>,
)
    requires
        plain_fields(fields, allowed),
        agrees(known, fields),
        forall|i: int|
            0 <= i < raws.len() ==> text::trimmed(#[trigger] raws[i]).len() == 0 || one_of(
                raws[i],
                lines_of(fields),
            ),
    ensures
        ({
            let meaning = kv_text::lines_meaning(subject, raws, allowed, known);
            &&& meaning is Ok
            &&& agrees(meaning->Ok_0, fields)
            &&& forall|i: int|
                0 <= i < fields.len() && (known.contains_key((#[trigger] fields[i]).0) || holds(
                    raws,
                    line_of(fields[i]),
                )) ==> meaning->Ok_0.contains_key(fields[i].0)
        }),
    decreases raws.len(),
{
    if raws.len() > 0 {
        let lines = lines_of(fields);
        let first = text::trimmed(raws[0]);
        let rest = raws.skip(1);
        assert forall|i: int| 0 <= i < rest.len() implies text::trimmed(#[trigger] rest[i]).len()
            == 0 || one_of(rest[i], lines) by {
            assert(rest[i] == raws[i + 1]);
        }
        if first.len() == 0 {
            lemma_lines_in_any_order(subject, rest, allowed, fields, known);
            assert forall|i: int|
                0 <= i < fields.len() && holds(raws, line_of(#[trigger] fields[i])) implies holds(
                rest,
                line_of(fields[i]),
            ) by {
                let at = choose|at: int|
                    0 <= at < raws.len() && text::trimmed(#[trigger] raws[at]) == line_of(
                        fields[i],
                    );
                assert(rest[at - 1] == raws[at]);
            }
        } else {
            assert(one_of(raws[0], lines));
            let f = choose|f: int| 0 <= f < lines.len() && lines[f] == first;
            let (key, value) = fields[f];
            assert(first == line_of(fields[f]));
            lemma_line(subject, key, value, allowed);
            assert(kv_text::line_meaning(subject, raws[0], allowed) == Ok::<
                Option<(Seq<char>, Seq<char>)>,
                Seq<char>,
            >(Some((key, value))));
            let more = known.insert(key, value);
            assert(agrees(more, fields)) by {
                assert forall|i: int|
                    0 <= i < fields.len() && more.contains_key((#[trigger] fields[i]).0) implies
                    more[fields[i].0] == fields[i].1 by {
                    if i < f {
                        assert(fields[i].0 != fields[f].0);
                    } else if i > f {
                        assert(fields[f].0 != fields[i].0);
                    }
                }
            }
            lemma_lines_in_any_order(subject, rest, allowed, fields, more);
            assert forall|i: int|
                0 <= i < fields.len() && holds(raws, line_of(#[trigger] fields[i])) implies holds(
                rest,
                line_of(fields[i]),
            ) || more.contains_key(fields[i].0) by {
                let at = choose|at: int|
                    0 <= at < raws.len() && text::trimmed(#[trigger] raws[at]) == line_of(
                        fields[i],
                    );
                if at > 0 {
                    assert(rest[at - 1] == raws[at]);
                } else {
                    lemma_line(subject, fields[i].0, fields[i].1, allowed);
                }
            }
        }
    }
}

proof fn lemma_lease_fields(lease: LeaseView)
    requires
        plain_value(lease.holder_node_id),
    ensures
        plain_fields(lease_fields(lease), lease_keys()),
{
    lemma_lease_keys_plain();
    lemma_decimal_is_plain(lease.generation);
    lemma_decimal_is_plain(lease.renewed_at_secs);
    lemma_decimal_is_plain(lease.ttl_secs);
}

/// A lease is read from its lines whatever their order: a text of the lines of a
/// lease, blank lines among them or not, is that lease.
pub proof fn law_lease_lines_in_any_order(lease: LeaseRecord, input: Seq<char>)
    requires
        plain_value(lease.holder_node_id@),
        made_of(input, lease_lines(lease@)),
    ensures
        lease_meaning(input) == Ok::<LeaseView, Seq<char>>(lease@),
{
    let fields = lease_fields(lease@);
    let lines = lease_lines(lease@);
    let raws = text::pieces(input, '\n');
    let none = Map::<Seq<char>, Seq<char>>::empty();
    lemma_lease_fields(lease@);
    lemma_lines_in_any_order("lease"@, raws, lease_keys(), fields, none);
    let map = kv_text::lines_meaning("lease"@, raws, lease_keys(), none)->Ok_0;
    assert forall|i: int| 0 <= i < fields.len() implies map.contains_key((#[trigger] fields[i]).0)
        && map[fields[i].0] == fields[i].1 by {
        assert(holds(raws, lines[i]));
    }
    assert(fields[0].0 == "holder_node_id"@ && fields[1].0 == "generation"@);
    assert(fields[2].0 == "renewed_at_secs"@ && fields[3].0 == "ttl_secs"@);
    lemma_number_field(map, "generation"@, lease@.generation);
    lemma_number_field(map, "renewed_at_secs"@, lease@.renewed_at_secs);
    lemma_number_field(map, "ttl_secs"@, lease@.ttl_secs);
}

proof fn lemma_freshness_fields(freshness: FreshnessView)
    requires
        plain_value(freshness.source_node_id),
    ensures
        plain_fields(freshness_fields(freshness), freshness_keys()),
{
    reveal_strlit("source_node_id");
    reveal_strlit("source_generation");
    reveal_strlit("synced_at_secs");
    let keys = freshness_keys();
    assert(keys[0] == "source_node_id"@ && keys[1] == "source_generation"@);
    assert(keys[2] == "synced_at_secs"@);
    assert("source_node_id"@.len() == 14);
    assert("source_generation"@.len() == 17);
    assert("synced_at_secs"@.len() == 14);
    assert("source_node_id"@[1] != "synced_at_secs"@[1]);
    lemma_decimal_is_plain(freshness.source_generation);
    lemma_decimal_is_plain(freshness.synced_at_secs);
}

/// A freshness record is read from its lines whatever their order: a text of the
/// lines of a record, blank lines among them or not, is that record.
pub proof fn law_freshness_lines_in_any_order(freshness: FreshnessLedger, input: Seq<char>)
    requires
        plain_value(freshness.source_node_id@),
        made_of(input, lines_of(freshness_fields(freshness@))),
    ensures
        freshness_meaning(input) == Ok::<FreshnessView, Seq<char>>(freshness@),
{
    let fields = freshness_fields(freshness@);
    let lines = lines_of(fields);
    let raws = text::pieces(input, '\n');
    let none = Map::<Seq<char>, Seq<char>>::empty();
    lemma_freshness_fields(freshness@);
    lemma_lines_in_any_order("freshness"@, raws, freshness_keys(), fields, none);
    let map = kv_text::lines_meaning("freshness"@, raws, freshness_keys(), none)->Ok_0;
    assert forall|i: int| 0 <= i < fields.len() implies map.contains_key((#[trigger] fields[i]).0)
        && map[fields[i].0] == fields[i].1 by {
        assert(holds(raws, lines[i]));
    }
    assert(fields[0].0 == "source_node_id"@ && fields[1].0 == "source_generation"@);
    assert(fields[2].0 == "synced_at_secs"@);
    lemma_number_field(map, "source_generation"@, freshness@.source_generation);
    lemma_number_field(map, "synced_at_secs"@, freshness@.synced_at_secs);
}

/// The lines of a lease make it up, whether or not a blank line follows.
proof fn lemma_made_of_lease(lease: LeaseView, input: Seq<char>, tail: Seq<Seq<char>>)
    requires
        plain_value(lease.holder_node_id),
        text::pieces(input, '\n') == lease_lines(lease) + tail,
        tail == Seq::<Seq<char>>::empty() || tail == seq![Seq::<char>::empty()],
    ensures
        made_of(input, lease_lines(lease)),
{
    let fields = lease_fields(lease);
    let lines = lease_lines(lease);
    let raws = text::pieces(input, '\n');
    lemma_lease_fields(lease);
    assert forall|i: int| 0 <= i < lines.len() implies text::trimmed(lines[i]) == lines[i] by {
        lemma_line("lease"@, fields[i].0, fields[i].1, lease_keys());
    }
    assert forall|i: int| 0 <= i < raws.len() implies text::trimmed(#[trigger] raws[i]).len() == 0
        || one_of(raws[i], lines) by {
        if i < lines.len() {
            assert(raws[i] == lines[i]);
            assert(lines.contains(lines[i]));
        } else {
            assert(raws[i] == tail[i - lines.len()]);
            assert(text::trimmed(raws[i]) == Seq::<char>::empty());
        }
    }
    assert forall|i: int| 0 <= i < lines.len() implies holds(raws, #[trigger] lines[i]) by {
        assert(raws[i] == lines[i]);
    }
}

/// The text form of a lease without its last line feed.
spec fn lease_body(lease: LeaseView) -> Seq<char> {
    let lines = lease_lines(lease);
    lines[0] + seq!['\n'] + (lines[1] + seq!['\n'] + (lines[2] + seq!['\n'] + lines[3]))
}

proof fn lemma_lease_text(lease: LeaseView)
    requires
        plain_value(lease.holder_node_id),
    ensures
        lease_text(lease) == lease_body(lease) + seq!['\n'],
        text::pieces(lease_body(lease), '\n') == lease_lines(lease),
        text::pieces(lease_text(lease), '\n') == lease_lines(lease) + seq![Seq::<char>::empty()],
        lease_body(lease).len() > 0,
        lease_body(lease)[0] == 'h',
        !text::is_space(lease_body(lease).last()),
{
    let lines = lease_lines(lease);
    let none = Seq::<char>::empty();
    lemma_lease_keys_plain();
    lemma_decimal_is_plain(lease.generation);
    lemma_decimal_is_plain(lease.renewed_at_secs);
    lemma_decimal_is_plain(lease.ttl_secs);
    lemma_line("lease"@, "holder_node_id"@, lease.holder_node_id, lease_keys());
    lemma_line("lease"@, "generation"@, text::decimal(lease.generation), lease_keys());
    lemma_line("lease"@, "renewed_at_secs"@, text::decimal(lease.renewed_at_secs), lease_keys());
    lemma_line("lease"@, "ttl_secs"@, text::decimal(lease.ttl_secs), lease_keys());
    assert(lease_text(lease) =~= lease_body(lease) + seq!['\n']) by {
        reveal_strlit("holder_node_id=");
        reveal_strlit("holder_node_id");
        reveal_strlit("\ngeneration=");
        reveal_strlit("generation");
        reveal_strlit("\nrenewed_at_secs=");
        reveal_strlit("renewed_at_secs");
        reveal_strlit("\nttl_secs=");
        reveal_strlit("ttl_secs");
        reveal_strlit("\n");
        assert("holder_node_id="@ =~= "holder_node_id"@ + seq!['=']);
        assert("\ngeneration="@ =~= seq!['\n'] + "generation"@ + seq!['=']);
        assert("\nrenewed_at_secs="@ =~= seq!['\n'] + "renewed_at_secs"@ + seq!['=']);
        assert("\nttl_secs="@ =~= seq!['\n'] + "ttl_secs"@ + seq!['=']);
        assert("\n"@ =~= seq!['\n']);
    }
    // The body.
    let b3 = lines[3];
    let b2 = lines[2] + seq!['\n'] + b3;
    let b1 = lines[1] + seq!['\n'] + b2;
    lemma_pieces_last(b3);
    lemma_pieces_step(lines[2], b3);
    lemma_pieces_step(lines[1], b2);
    lemma_pieces_step(lines[0], b1);
    assert(text::pieces(lease_body(lease), '\n') =~= lines);
    // The whole text.
    let t3 = lines[3] + seq!['\n'] + none;
    let t2 = lines[2] + seq!['\n'] + t3;
    let t1 = lines[1] + seq!['\n'] + t2;
    let t0 = lines[0] + seq!['\n'] + t1;
    lemma_pieces_last(none);
    lemma_pieces_step(lines[3], none);
    lemma_pieces_step(lines[2], t3);
    lemma_pieces_step(lines[1], t2);
    lemma_pieces_step(lines[0], t1);
    assert(t0 =~= lease_body(lease) + seq!['\n']);
    assert(text::pieces(t0, '\n') =~= lines + seq![none]);
    // Its ends.
    assert(lease_body(lease)[0] == 'h') by {
        reveal_strlit("holder_node_id");
    }
    let last = text::decimal(lease.ttl_secs);
    assert(lease_body(lease).last() == last.last());
    lemma_value_ends(last);
}

/// Reading gives back what was written: parsing the text form of a lease gives
/// that lease, for every holder that a `key=value` line can carry.
pub proof fn law_lease_record_round_trip(lease: LeaseRecord)
    requires
        plain_value(lease.holder_node_id@),
    ensures
        lease_meaning(lease_text(lease@)) == Ok::<LeaseView, Seq<char>>(lease@),
{
    lemma_lease_text(lease@);
    lemma_made_of_lease(lease@, lease_text(lease@), seq![Seq::<char>::empty()]);
    law_lease_lines_in_any_order(lease, lease_text(lease@));
}

/// A text without white space at its ends that starts with an `h` is what a file with
/// it and a line feed holds.
proof fn lemma_file_with_a_line_feed(body: Seq<char>)
    requires
        body.len() > 0,
        body[0] == 'h',
        !text::is_space(body.last()),
    ensures
        kv_text::record_text(body + seq!['\n']) == Some(body),
{
    let none = Seq::<char>::empty();
    assert(none + body + seq!['\n'] =~= body + seq!['\n']);
    text::law_trimming_takes_the_surrounding_space(none, body, seq!['\n']);
    reveal_strlit("none");
    assert(text::ascii_lower(body[0]) == 'h');
    assert(text::ascii_lower("none"@[0]) == 'n');
}

/// Reading a lease file gives back the lease that was written to it.
pub proof fn law_lease_file_round_trip(lease: LeaseRecord)
    requires
        plain_value(lease.holder_node_id@),
    ensures
        lease_in_file(Some(lease_text(lease@))) == Ok::<Option<LeaseView>, Seq<char>>(
            Some(lease@),
        ),
{
    let body = lease_body(lease@);
    lemma_lease_text(lease@);
    lemma_file_with_a_line_feed(body);
    assert(lease_lines(lease@) + Seq::<Seq<char>>::empty() =~= lease_lines(lease@));
    lemma_made_of_lease(lease@, body, Seq::<Seq<char>>::empty());
    law_lease_lines_in_any_order(lease, body);
}

/// A lease needs all four fields; with them it is just these.
pub proof fn law_lease_needs_all_fields(map: Map<Seq<char>, Seq<char>>)
    ensures
        match lease_of(map) {
            Ok(lease) => {
                &&& map.contains_key("holder_node_id"@) && map["holder_node_id"@]
                    == lease.holder_node_id && lease.holder_node_id.len() > 0
                &&& map.contains_key("generation"@) && text::unsigned_number(
                    map["generation"@],
                    u64::MAX as nat,
                ) == Some(lease.generation)
                &&& map.contains_key("renewed_at_secs"@) && text::unsigned_number(
                    map["renewed_at_secs"@],
                    u64::MAX as nat,
                ) == Some(lease.renewed_at_secs)
                &&& map.contains_key("ttl_secs"@) && text::unsigned_number(
                    map["ttl_secs"@],
                    u64::MAX as nat,
                ) == Some(lease.ttl_secs)
            },
            Err(_) => {
                ||| !map.contains_key("holder_node_id"@) || map["holder_node_id"@].len() == 0
                ||| !map.contains_key("generation"@) || text::unsigned_number(
                    map["generation"@],
                    u64::MAX as nat,
                ) is None
                ||| !map.contains_key("renewed_at_secs"@) || text::unsigned_number(
                    map["renewed_at_secs"@],
                    u64::MAX as nat,
                ) is None
                ||| !map.contains_key("ttl_secs"@) || text::unsigned_number(
                    map["ttl_secs"@],
                    u64::MAX as nat,
                ) is None
            },
        },
{
}

/// A missing lease file, a blank one and one that says `none` hold no lease; any
/// other holds the one of its text or what is wrong with it.
pub proof fn law_lease_file_holds_its_lease(pre: Seq<char>, record: Seq<char>, post: Seq<char>)
    requires
        text::all_spaces(pre),
        text::all_spaces(post),
        record.len() > 0 ==> !text::is_space(record[0]) && !text::is_space(record.last()),
    ensures
        lease_in_file(None) == Ok::<Option<LeaseView>, Seq<char>>(None),
        ({
            let found = lease_in_file(Some(pre + record + post));
            if record.len() == 0 || text::ascii_lowered(record) == "none"@ {
                found == Ok::<Option<LeaseView>, Seq<char>>(None)
            } else {
                match lease_meaning(record) {
                    Ok(lease) => found == Ok::<Option<LeaseView>, Seq<char>>(Some(lease)),
                    Err(e) => found == Err::<Option<LeaseView>, Seq<char>>(e),
                }
            }
        }),
{
    kv_text::law_file_holds_its_record(pre, record, post);
}

/// The holder of a lease is reached under its name, with a dot and the name of the
/// service behind it where there is one, at the given port.
pub proof fn law_holder_is_reached_under_its_name(
    holder: Seq<char>,
    service: Seq<char>,
    port: u16,
)
    ensures
        holder_endpoint(holder, Seq::empty(), port) == "http://"@ + holder + ":"@ + text::decimal(
            port as nat,
        ),
        service.len() > 0 ==> holder_endpoint(holder, service, port) == "http://"@ + holder + "."@
            + service + ":"@ + text::decimal(port as nat),
{
    assert("http://"@ + (holder + "."@ + service) =~= "http://"@ + holder + "."@ + service);
}

/// What a record holds is what its fields hold.
pub proof fn law_records_hold_their_fields(lease: LeaseRecord, freshness: FreshnessLedger)
    ensures
        lease@.holder_node_id == lease.holder_node_id@,
        lease@.generation == lease.generation,
        lease@.renewed_at_secs == lease.renewed_at_secs,
        lease@.ttl_secs == lease.ttl_secs,
        freshness@.source_node_id == freshness.source_node_id@,
        freshness@.source_generation == freshness.source_generation,
        freshness@.synced_at_secs == freshness.synced_at_secs,
{
}

/// The text form of a lease is its four lines.
pub proof fn law_lease_text_has_its_keys(lease: LeaseRecord)
    ensures
        lease_text(lease@) == "holder_node_id="@ + lease.holder_node_id@ + "\ngeneration="@
            + text::decimal(lease.generation as nat) + "\nrenewed_at_secs="@ + text::decimal(
            lease.renewed_at_secs as nat,
        ) + "\nttl_secs="@ + text::decimal(lease.ttl_secs as nat) + "\n"@,
{
}

/// A line of a key and a plain value stays as it is when trimmed, and is one line.
proof fn lemma_plain_line(key: Seq<char>, value: Seq<char>)
    requires
        plain_key(key),
        value.len() > 0,
        !text::is_space(value.last()),
        !value.contains('\n'),
    ensures
        text::trimmed(key + seq!['='] + value) == key + seq!['='] + value,
        !(key + seq!['='] + value).contains('\n'),
{
    let line = key + seq!['='] + value;
    assert(line[0] == key[0]);
    assert(line.last() == value.last());
    text::lemma_trimmed_fixpoint(line);
    assert forall|i: int| 0 <= i < line.len() implies line[i] != '\n' by {
        if i > key.len() {
            assert(line[i] == value[i - key.len() - 1]);
        }
    }
}

proof fn lemma_digits_are_one_line(n: u64)
    ensures
        text::decimal(n as nat).len() > 0,
        !text::is_space(text::decimal(n as nat).last()),
        !text::decimal(n as nat).contains('\n'),
{
    let d = text::decimal(n as nat);
    text::lemma_decimal_round_trip(n as nat);
    assert(text::is_digit(d.last()));
    assert forall|i: int| 0 <= i < d.len() implies d[i] != '\n' by {
        assert(text::is_digit(d[i]));
    }
}

proof fn lemma_made_of_its_lines(lines: Seq<Seq<char>>)
    requires
        lines.len() > 0,
        forall|i: int|
            0 <= i < lines.len() ==> text::trimmed(#[trigger] lines[i]) == lines[i]
                && !lines[i].contains('\n'),
    ensures
        made_of(text::joined_with(lines, '\n'), lines),
{
    text::law_joined_text_splits_again(lines, '\n');
    assert forall|i: int| 0 <= i < lines.len() implies one_of(#[trigger] lines[i], lines) by {
        assert(lines.contains(lines[i]));
    }
    assert forall|i: int| 0 <= i < lines.len() implies holds(lines, #[trigger] lines[i]) by {
        assert(text::trimmed(lines[i]) == lines[i]);
    }
}

proof fn lemma_freshness_keys_are_plain()
    ensures
        plain_key("source_node_id"@),
        plain_key("source_generation"@),
        plain_key("synced_at_secs"@),
{
    reveal_strlit("source_node_id");
    reveal_strlit("source_generation");
    reveal_strlit("synced_at_secs");
}

/// A freshness record is read from the text of its three lines.
pub proof fn law_freshness_text_has_its_keys(freshness: FreshnessLedger)
    requires
        plain_value(freshness.source_node_id@),
    ensures
        freshness_meaning(
            text::joined_with(
                seq![
                    "source_node_id"@ + seq!['='] + freshness.source_node_id@,
                    "source_generation"@ + seq!['='] + text::decimal(
                        freshness.source_generation as nat,
                    ),
                    "synced_at_secs"@ + seq!['='] + text::decimal(freshness.synced_at_secs as nat),
                ],
                '\n',
            ),
        ) == Ok::<FreshnessView, Seq<char>>(freshness@),
{
    let g = text::decimal(freshness.source_generation as nat);
    let t = text::decimal(freshness.synced_at_secs as nat);
    let all = seq![
        "source_node_id"@ + seq!['='] + freshness.source_node_id@,
        "source_generation"@ + seq!['='] + g,
        "synced_at_secs"@ + seq!['='] + t,
    ];
    let lines = lines_of(freshness_fields(freshness@));
    lemma_freshness_keys_are_plain();
    lemma_digits_are_one_line(freshness.source_generation);
    lemma_digits_are_one_line(freshness.synced_at_secs);
    text::lemma_trimmed_ends(freshness.source_node_id@);
    lemma_plain_line("source_node_id"@, freshness.source_node_id@);
    lemma_plain_line("source_generation"@, g);
    lemma_plain_line("synced_at_secs"@, t);
    assert(lines =~= all);
    lemma_made_of_its_lines(lines);
    law_freshness_lines_in_any_order(freshness, text::joined_with(lines, '\n'));
}

} // verus!
