//! How the client shows responses.
use vstd::prelude::*;

use crate::cli::args::OutputFormat;
use crate::cli::sql;
use crate::db::SqlValue;
use crate::error::concat;
use crate::gateway::values;
use crate::gateway::values::SqlView;
use crate::proto::{
    BatchResponse, ClusterStatusResponse, ColumnHeader, DatabaseInfo, ExecuteResponse, LeaseStatus,
    ReportedRole, StatementResult, Value,
};
use crate::text;

verus! {

// ---------------------------------------------------------------------------
// Writes and batches
// ---------------------------------------------------------------------------

/// What is said of a write. `millis` is its time in milliseconds as it is shown.
pub fn execute_summary(resp: &ExecuteResponse, millis: &str) -> (r: String)
    ensures
        r@ == "Query executed in "@ + millis@ + " ms. Rows affected: "@ + text::decimal(
            resp.rows_affected as nat,
        ) + ", Last Insert RowID: "@ + text::signed_decimal(resp.last_insert_rowid as int)
            + " (Generation: "@ + text::decimal(resp.generation as nat) + ")"@,
{
    let mut s: String = "Query executed in ".to_owned();
    s.append(millis);
    s.append(" ms. Rows affected: ");
    s.append(text::u64_text(resp.rows_affected).as_str());
    s.append(", Last Insert RowID: ");
    s.append(text::i64_text(resp.last_insert_rowid).as_str());
    s.append(" (Generation: ");
    s.append(text::u64_text(resp.generation).as_str());
    s.append(")");
    s
}

/// What is said of a batch. `millis` is its time in milliseconds as it is shown.
pub fn batch_summary(resp: &BatchResponse, millis: &str) -> (r: String)
    ensures
        r@ == "Batch transaction "@ + if resp.committed {
            "COMMITTED"@
        } else {
            "FAILED"@
        } + " in "@ + millis@ + " ms. Statements executed: "@ + text::decimal(
            resp.results@.len() as nat,
        ) + " (Generation: "@ + text::decimal(resp.generation as nat) + ")"@,
{
    let mut s: String = "Batch transaction ".to_owned();
    if resp.committed {
        s.append("COMMITTED");
    } else {
        s.append("FAILED");
    }
    s.append(" in ");
    s.append(millis);
    s.append(" ms. Statements executed: ");
    s.append(text::u64_text(resp.results.len() as u64).as_str());
    s.append(" (Generation: ");
    s.append(text::u64_text(resp.generation).as_str());
    s.append(")");
    s
}

/// What is said of the statements of a batch that failed.
pub open spec fn failure_texts(results: Seq<StatementResult>) -> Seq<Seq<char>>
    decreases results.len(),
{
    if results.len() == 0 {
        Seq::empty()
    } else {
        let before = failure_texts(results.drop_last());
        if results.last().error@.len() > 0 {
            before.push(
                "Statement "@ + text::decimal(results.len()) + ": "@ + results.last().error@,
            )
        } else {
            before
        }
    }
}

/// What is said of the statements of a batch that failed.
pub fn batch_failures(resp: &BatchResponse) -> (r: Vec<String>)
    ensures
        text::views(r@) == failure_texts(resp.results@),
{
    let n: usize = resp.results.len();
    let mut out: Vec<String> = Vec::new();
    let mut i: usize = 0;
    assert(text::views(out@) =~= failure_texts(resp.results@.take(0)));
    while i < n
        invariant
            i <= n,
            n == resp.results@.len(),
            text::views(out@) == failure_texts(resp.results@.take(i as int)),
        decreases n - i,
    {
        let ghost before = out@;
        assert(resp.results@.take(i + 1).drop_last() == resp.results@.take(i as int));
        assert(resp.results@.take(i + 1).last() == resp.results@[i as int]);
        if !resp.results[i].error.as_str().is_empty() {
            let mut s: String = "Statement ".to_owned();
            s.append(text::u64_text((i + 1) as u64).as_str());
            s.append(": ");
            s.append(resp.results[i].error.as_str());
            out.push(s);
            assert(text::views(out@) =~= text::views(before).push(s@));
        }
        i = i + 1;
    }
    assert(resp.results@.take(i as int) == resp.results@);
    out
}

// ---------------------------------------------------------------------------
// Values
// ---------------------------------------------------------------------------

/// The text of a value. `float` is the text of its number, where it is a
/// floating-point number.
pub open spec fn value_text(v: SqlView, float: Seq<char>) -> Seq<char> {
    match v {
        SqlView::Null => "NULL"@,
        SqlView::Integer(i) => text::signed_decimal(i as int),
        SqlView::Float(_) => float,
        SqlView::Text(t) => t,
        SqlView::Blob(b) => "x'"@ + sql::hex_text(b) + "'"@,
    }
}

/// The text of a value. `float` is the text of its number, where it is a
/// floating-point number.
pub fn format_sql_value(val: &SqlValue, float: &str) -> (r: String)
    ensures
        r@ == value_text(values::sql_view(*val), float@),
{
    match val {
        SqlValue::Null => "NULL".to_owned(),
        SqlValue::Integer(i) => text::i64_text(*i),
        SqlValue::Float(_) => float.to_owned(),
        SqlValue::Text(t) => t.clone(),
        SqlValue::Blob(b) => {
            let mut s: String = "x'".to_owned();
            s.append(sql::hex_encode(b.as_slice()).as_str());
            s.append("'");
            s
        },
    }
}

/// The title of a column of a table.
pub open spec fn title_text(name: Seq<char>, declared_type: Seq<char>) -> Seq<char> {
    if declared_type.len() == 0 {
        name
    } else {
        name + "\n("@ + declared_type + ")"@
    }
}

/// The title of a column of a table.
pub fn column_title(column: &ColumnHeader) -> (r: String)
    ensures
        r@ == title_text(column.name@, column.declared_type@),
        r@ == if column.declared_type@.len() == 0 {
            column.name@
        } else {
            column.name@ + "\n("@ + column.declared_type@ + ")"@
        },
{
    let mut s: String = column.name.clone();
    if !column.declared_type.as_str().is_empty() {
        s.append("\n(");
        s.append(column.declared_type.as_str());
        s.append(")");
    }
    s
}

/// The name of a column in JSON, where a missing one is made up from its index.
pub open spec fn key_text(columns: Seq<ColumnHeader>, i: nat) -> Seq<char> {
    if i < columns.len() {
        columns[i as int].name@
    } else {
        "col_"@ + text::decimal(i)
    }
}

/// The name of a column in JSON, where a missing one is made up from its index.
pub fn json_key(columns: &Vec<ColumnHeader>, i: usize) -> (r: String)
    ensures
        r@ == key_text(columns@, i as nat),
        r@ == if i < columns@.len() {
            columns@[i as int].name@
        } else {
            "col_"@ + text::decimal(i as nat)
        },
{
    if i < columns.len() {
        return columns[i].name.clone();
    }
    let mut s: String = "col_".to_owned();
    s.append(text::u64_text(i as u64).as_str());
    s
}

/// What is said of the number of rows of a table.
pub fn rows_summary(total_rows: u64, millis: &str) -> (r: String)
    ensures
        r@ == "("@ + text::decimal(total_rows as nat) + " "@ + if total_rows == 1 {
            "row"@
        } else {
            "rows"@
        } + " in "@ + millis@ + " ms)"@,
{
    let mut s: String = "(".to_owned();
    s.append(text::u64_text(total_rows).as_str());
    s.append(" ");
    if total_rows == 1 {
        s.append("row");
    } else {
        s.append("rows");
    }
    s.append(" in ");
    s.append(millis);
    s.append(" ms)");
    s
}

// ---------------------------------------------------------------------------
// Delimited lines
// ---------------------------------------------------------------------------

/// A text with each double quote doubled.
pub open spec fn doubled(s: Seq<char>) -> Seq<char>
    decreases s.len(),
{
    if s.len() == 0 {
        Seq::empty()
    } else if s.last() == '"' {
        doubled(s.drop_last()).push('"').push('"')
    } else {
        doubled(s.drop_last()).push(s.last())
    }
}

/// Whether a text needs quotes in a comma-separated line.
pub open spec fn needs_quotes(s: Seq<char>) -> bool {
    s.contains(',') || s.contains('"') || s.contains('\n')
}

/// A text as a field of a line.
pub open spec fn field_text(s: Seq<char>, delimiter: char) -> Seq<char> {
    if delimiter == ',' && needs_quotes(s) {
        "\""@ + doubled(s) + "\""@
    } else {
        s
    }
}

/// A value as a field of a line; NULL is an empty one.
pub open spec fn value_field(v: SqlView, float: Seq<char>, delimiter: char) -> Seq<char> {
    if v is Null {
        Seq::empty()
    } else {
        field_text(value_text(v, float), delimiter)
    }
}

fn double_quotes(s: &str) -> (r: String)
    ensures
        r@ == doubled(s@),
{
    let v: Vec<char> = text::chars_of(s);
    let mut out: String = String::new();
    let mut i: usize = 0;
    assert(out@ == doubled(v@.take(0)));
    while i < v.len()
        invariant
            i <= v@.len(),
            out@ == doubled(v@.take(i as int)),
        decreases v@.len() - i,
    {
        assert(v@.take(i + 1).drop_last() == v@.take(i as int));
        let c: char = v[i];
        if c == '"' {
            out.push('"');
        }
        out.push(c);
        i = i + 1;
    }
    assert(v@.take(i as int) == v@);
    out
}

/// A text as a field of a line.
pub fn delimited_field(s: &str, delimiter: char) -> (r: String)
    ensures
        r@ == field_text(s@, delimiter),
{
    if delimiter == ',' && (text::contains_char(s, ',') || text::contains_char(s, '"')
        || text::contains_char(s, '\n')) {
        let mut out: String = "\"".to_owned();
        out.append(double_quotes(s).as_str());
        out.append("\"");
        out
    } else {
        s.to_owned()
    }
}

/// A text with each pair of double quotes made one, as a reader of a quoted field
/// does it.
pub open spec fn undoubled(s: Seq<char>) -> Seq<char>
    decreases s.len(),
{
    if s.len() == 0 {
        Seq::empty()
    } else if s.last() == '"' && s.len() > 1 {
        undoubled(s.take(s.len() - 2)).push('"')
    } else {
        undoubled(s.drop_last()).push(s.last())
    }
}

proof fn lemma_undoubled(s: Seq<char>)
    ensures
        undoubled(doubled(s)) == s,
    decreases s.len(),
{
    if s.len() > 0 {
        lemma_undoubled(s.drop_last());
        let d = doubled(s.drop_last());
        assert(s == s.drop_last().push(s.last()));
        if s.last() == '"' {
            assert(d.push('"').push('"').take(d.len() as int) == d);
        } else {
            assert(d.push(s.last()).drop_last() == d);
        }
    }
}

/// A text survives the way into a comma-separated line: without what needs quotes
/// it stands there as it is, and else within quotes, with its own ones doubled.
pub proof fn law_comma_separated_field_is_readable(s: Seq<char>)
    ensures
        !needs_quotes(s) ==> field_text(s, ',') == s,
        needs_quotes(s) ==> field_text(s, ',') == "\""@ + doubled(s) + "\""@ && undoubled(
            doubled(s),
        ) == s,
{
    lemma_undoubled(s);
}

/// The delimiter of the fields of a line, in formats of lines.
pub open spec fn delimiter(format: OutputFormat) -> Option<char> {
    match format {
        OutputFormat::Csv => Some(','),
        OutputFormat::Tsv => Some('\t'),
        OutputFormat::Raw => Some(' '),
        OutputFormat::Table => None,
        OutputFormat::Json => None,
    }
}

/// The delimiter of the fields of a line, in formats of lines.
pub fn delimiter_of(format: OutputFormat) -> (r: Option<char>)
    ensures
        r == delimiter(format),
        r == match format {
            OutputFormat::Csv => Some(','),
            OutputFormat::Tsv => Some('\t'),
            OutputFormat::Raw => Some(' '),
            _ => None,
        },
{
    match format {
        OutputFormat::Csv => Some(','),
        OutputFormat::Tsv => Some('\t'),
        OutputFormat::Raw => Some(' '),
        _ => None,
    }
}

/// Fields with a delimiter between each two.
pub open spec fn joined_fields(fields: Seq<Seq<char>>, delimiter: char) -> Seq<char>
    decreases fields.len(),
{
    if fields.len() == 0 {
        Seq::empty()
    } else if fields.len() == 1 {
        fields[0]
    } else {
        joined_fields(fields.drop_last(), delimiter).push(delimiter) + fields.last()
    }
}

fn add_field(line: &mut String, count: usize, field: &str, delimiter: char)
    ensures
        final(line)@ == if count == 0 {
            old(line)@ + field@
        } else {
            old(line)@.push(delimiter) + field@
        },
{
    if count > 0 {
        line.push(delimiter);
    }
    line.append(field);
}

proof fn lemma_joined_push(fields: Seq<Seq<char>>, field: Seq<char>, delimiter: char)
    ensures
        joined_fields(fields.push(field), delimiter) == if fields.len() == 0 {
            joined_fields(fields, delimiter) + field
        } else {
            joined_fields(fields, delimiter).push(delimiter) + field
        },
{
    assert(fields.push(field).drop_last() == fields);
    if fields.len() == 0 {
        assert(joined_fields(fields, delimiter) + field =~= field);
    }
}

/// The names of these columns.
pub open spec fn column_names(columns: Seq<ColumnHeader>) -> Seq<Seq<char>> {
    Seq::new(columns.len(), |i: int| columns[i].name@)
}

/// The first line of a delimited result.
pub fn delimited_header(columns: &Vec<ColumnHeader>, delimiter: char) -> (r: String)
    ensures
        r@ == joined_fields(column_names(columns@), delimiter),
{
    let mut line: String = String::new();
    let mut i: usize = 0;
    assert(line@ =~= joined_fields(column_names(columns@.take(0)), delimiter));
    while i < columns.len()
        invariant
            i <= columns@.len(),
            line@ == joined_fields(column_names(columns@.take(i as int)), delimiter),
        decreases columns@.len() - i,
    {
        add_field(&mut line, i, columns[i].name.as_str(), delimiter);
        proof {
            lemma_joined_push(
                column_names(columns@.take(i as int)),
                columns@[i as int].name@,
                delimiter,
            );
            assert(column_names(columns@.take(i + 1)) =~= column_names(
                columns@.take(i as int),
            ).push(columns@[i as int].name@));
        }
        i = i + 1;
    }
    assert(columns@.take(i as int) == columns@);
    line
}

/// The fields of the first `n` values of a row.
pub open spec fn row_fields(
    row: Seq<Value>,
    floats: Seq<String>,
    delimiter: char,
    n: nat,
) -> Seq<Seq<char>> {
    Seq::new(
        n,
        |i: int| value_field(values::value_view(row[i]), floats[i]@, delimiter),
    )
}

/// A line of a delimited result. `floats` gives for each value the text of its
/// number, where it is a floating-point number.
pub fn delimited_line(row: &Vec<Value>, floats: &Vec<String>, delimiter: char) -> (r: String)
    requires
        floats@.len() == row@.len(),
    ensures
        r@ == joined_fields(row_fields(row@, floats@, delimiter, row@.len()), delimiter),
{
    let mut line: String = String::new();
    let mut i: usize = 0;
    assert(line@ =~= joined_fields(row_fields(row@, floats@, delimiter, 0), delimiter));
    while i < row.len()
        invariant
            i <= row@.len(),
            floats@.len() == row@.len(),
            line@ == joined_fields(row_fields(row@, floats@, delimiter, i as nat), delimiter),
        decreases row@.len() - i,
    {
        let value: SqlValue = values::proto_value_to_sql(&row[i]);
        let field: String = match &value {
            SqlValue::Null => String::new(),
            other => delimited_field(
                format_sql_value(other, floats[i].as_str()).as_str(),
                delimiter,
            ),
        };
        add_field(&mut line, i, field.as_str(), delimiter);
        proof {
            lemma_joined_push(
                row_fields(row@, floats@, delimiter, i as nat),
                field@,
                delimiter,
            );
            assert(row_fields(row@, floats@, delimiter, (i + 1) as nat) =~= row_fields(
                row@,
                floats@,
                delimiter,
                i as nat,
            ).push(field@));
        }
        i = i + 1;
    }
    line
}

// ---------------------------------------------------------------------------
// Status
// ---------------------------------------------------------------------------

/// The word for a role.
pub open spec fn role_word(role: ReportedRole) -> Seq<char> {
    match role {
        ReportedRole::Writer => "writer"@,
        ReportedRole::Replica => "replica"@,
        ReportedRole::Unspecified => "unspecified"@,
    }
}

/// The word for a role.
pub fn node_role_str(role: ReportedRole) -> (r: &'static str)
    ensures
        r@ == role_word(role),
{
    match role {
        ReportedRole::Writer => "writer",
        ReportedRole::Replica => "replica",
        ReportedRole::Unspecified => "unspecified",
    }
}

/// The seconds that a lease has left.
pub open spec fn seconds_left(lease: LeaseStatus, now_secs: u64) -> int {
    let end = if lease.renewed_at_secs + lease.ttl_secs <= u64::MAX {
        lease.renewed_at_secs + lease.ttl_secs
    } else {
        u64::MAX as int
    };
    if end >= now_secs {
        end - now_secs
    } else {
        0
    }
}

/// What is said of a lease.
#[derive(Debug, PartialEq, Eq)]
pub struct LeaseSummary {
    pub holder: String,
    pub remaining_secs: u64,
    pub expired: bool,
}

/// What is said of the lease of a node; nothing much where it has none.
pub fn lease_summary(lease: &Option<LeaseStatus>, now_secs: u64) -> (r: LeaseSummary)
    ensures
        match *lease {
            Some(l) => r.holder@ == l.holder_node_id@ && r.remaining_secs == seconds_left(
                l,
                now_secs,
            ) && r.expired == l.is_expired,
            None => r.holder@.len() == 0 && r.remaining_secs == 0 && !r.expired,
        },
{
    match lease {
        Some(l) => {
            let end: u64 = l.renewed_at_secs.saturating_add(l.ttl_secs);
            let remaining_secs: u64 = if end >= now_secs {
                end - now_secs
            } else {
                0
            };
            LeaseSummary {
                holder: l.holder_node_id.clone(),
                remaining_secs,
                expired: l.is_expired,
            }
        },
        None => LeaseSummary { holder: String::new(), remaining_secs: 0, expired: false },
    }
}

/// The lines about a node, without its databases.
pub open spec fn status_texts(status: ClusterStatusResponse, now_secs: u64) -> Seq<Seq<char>> {
    let about_node = seq![
        "Cluster Node: "@ + status.node_id@,
        "Role:         "@ + role_word(status.role),
        "Generation:   "@ + text::decimal(status.local_generation as nat),
        "Version:      "@ + status.version@,
        "Uptime:       "@ + text::decimal(status.uptime_secs as nat) + "s"@,
        "Active Leader:"@ + if status.current_leader_id@.len() == 0 {
            "none"@
        } else {
            status.current_leader_id@
        },
    ];
    let about_leader = if status.current_leader_endpoint@.len() == 0 {
        Seq::empty()
    } else {
        seq!["Leader URL:   "@ + status.current_leader_endpoint@]
    };
    let about_lease = match status.lease {
        Some(l) => if l.holder_node_id@.len() == 0 {
            Seq::empty()
        } else {
            seq![
                "Lease Holder: "@ + l.holder_node_id@ + " (remaining: "@ + text::decimal(
                    seconds_left(l, now_secs) as nat,
                ) + "s"@ + if l.is_expired {
                    ", EXPIRED"@
                } else {
                    ""@
                } + ")"@,
            ]
        },
        None => Seq::empty(),
    };
    about_node + about_leader + about_lease
}

/// The lines about a node, without its databases.
pub fn status_lines(status: &ClusterStatusResponse, now_secs: u64) -> (r: Vec<String>)
    ensures
        text::views(r@) == status_texts(*status, now_secs),
{
    let lease: LeaseSummary = lease_summary(&status.lease, now_secs);
    let mut out: Vec<String> = Vec::new();
    out.push(concat("Cluster Node: ", status.node_id.as_str()));
    out.push(concat("Role:         ", node_role_str(status.role)));
    out.push(concat("Generation:   ", text::u64_text(status.local_generation).as_str()));
    out.push(concat("Version:      ", status.version.as_str()));
    let mut uptime: String = concat("Uptime:       ", text::u64_text(status.uptime_secs).as_str());
    uptime.append("s");
    out.push(uptime);
    if status.current_leader_id.as_str().is_empty() {
        out.push(concat("Active Leader:", "none"));
    } else {
        out.push(concat("Active Leader:", status.current_leader_id.as_str()));
    }
    let ghost about_node = seq![
        "Cluster Node: "@ + status.node_id@,
        "Role:         "@ + role_word(status.role),
        "Generation:   "@ + text::decimal(status.local_generation as nat),
        "Version:      "@ + status.version@,
        "Uptime:       "@ + text::decimal(status.uptime_secs as nat) + "s"@,
        "Active Leader:"@ + if status.current_leader_id@.len() == 0 {
            "none"@
        } else {
            status.current_leader_id@
        },
    ];
    assert(text::views(out@) =~= about_node);
    let ghost about_leader = if status.current_leader_endpoint@.len() == 0 {
        Seq::<Seq<char>>::empty()
    } else {
        seq!["Leader URL:   "@ + status.current_leader_endpoint@]
    };
    if !status.current_leader_endpoint.as_str().is_empty() {
        out.push(concat("Leader URL:   ", status.current_leader_endpoint.as_str()));
    }
    assert(text::views(out@) =~= about_node + about_leader);
    if !lease.holder.as_str().is_empty() {
        let mut s: String = concat("Lease Holder: ", lease.holder.as_str());
        s.append(" (remaining: ");
        s.append(text::u64_text(lease.remaining_secs).as_str());
        s.append("s");
        if lease.expired {
            s.append(", EXPIRED");
        } else {
            s.append("");
        }
        s.append(")");
        out.push(s);
    }
    assert(text::views(out@) =~= status_texts(*status, now_secs));
    out
}

/// The cells of a database in the table of databases. `size` is the size of its
/// file as it is shown.
pub fn database_cells(db: &DatabaseInfo, size: &str) -> (r: Vec<String>)
    ensures
        text::views(r@) == seq![
            db.name@,
            size@,
            text::decimal(db.page_count as nat),
            text::decimal(db.page_size as nat) + " B"@,
            db.journal_mode@,
        ],
{
    let mut out: Vec<String> = Vec::new();
    out.push(db.name.clone());
    out.push(size.to_owned());
    out.push(text::u64_text(db.page_count as u64));
    out.push(concat(text::u64_text(db.page_size as u64).as_str(), " B"));
    out.push(db.journal_mode.clone());
    assert(text::views(out@) =~= seq![
        db.name@,
        size@,
        text::decimal(db.page_count as nat),
        text::decimal(db.page_size as nat) + " B"@,
        db.journal_mode@,
    ]);
    out
}

// ---------------------------------------------------------------------------
// What is shown of values and results
// ---------------------------------------------------------------------------

/// Whether a text stands in every line as it is: it holds no comma, double quote or
/// line feed.
pub open spec fn is_unquoted(s: Seq<char>) -> bool {
    forall|i: int| 0 <= i < s.len() ==> (#[trigger] s[i]) != ',' && s[i] != '"' && s[i] != '\n'
}

proof fn lemma_unquoted_field(s: Seq<char>, delimiter: char)
    requires
        is_unquoted(s) || delimiter != ',',
    ensures
        field_text(s, delimiter) == s,
{
}

proof fn lemma_number_is_unquoted(n: i64)
    ensures
        is_unquoted(text::signed_decimal(n as int)),
{
    let s = text::signed_decimal(n as int);
    let digits = text::decimal(if n < 0 { (-n) as nat } else { n as nat });
    text::lemma_decimal_round_trip(if n < 0 { (-n) as nat } else { n as nat });
    assert forall|i: int| 0 <= i < s.len() implies (#[trigger] s[i]) != ',' && s[i] != '"' && s[i]
        != '\n' by {
        if n < 0 {
            if i > 0 {
                assert(s[i] == digits[i - 1]);
                assert(text::is_digit(digits[i - 1]));
            }
        } else {
            assert(text::is_digit(digits[i]));
        }
    }
}

proof fn lemma_blob_is_unquoted(b: Seq<u8>)
    ensures
        is_unquoted("x'"@ + sql::hex_text(b) + "'"@),
{
    reveal_strlit("x'");
    reveal_strlit("'");
    let h = sql::hex_text(b);
    let s = "x'"@ + h + "'"@;
    assert forall|i: int| 0 <= i < s.len() implies (#[trigger] s[i]) != ',' && s[i] != '"' && s[i]
        != '\n' by {
        if 2 <= i < s.len() - 1 {
            assert(s[i] == h[i - 2]);
            assert(b[(i - 2) / 2] / 16 < 16 && b[(i - 2) / 2] % 16 < 16);
        }
    }
}

/// Every value but NULL is shown: an integer in decimal, a blob as `x'..'` with its
/// digits, a floating-point number and a text as they are wherever that needs no
/// quotes. NULL alone leaves its field empty.
pub proof fn law_values_are_shown(
    n: i64,
    bits: u64,
    number: Seq<char>,
    t: Seq<char>,
    b: Seq<u8>,
    float: Seq<char>,
    delimiter: char,
)
    ensures
        value_field(SqlView::Integer(n), float, delimiter) == text::signed_decimal(n as int),
        is_unquoted(number) || delimiter != ',' ==> value_field(
            SqlView::Float(bits),
            number,
            delimiter,
        ) == number,
        is_unquoted(t) || delimiter != ',' ==> value_field(SqlView::Text(t), float, delimiter) == t,
        value_field(SqlView::Blob(b), float, delimiter) == "x'"@ + sql::hex_text(b) + "'"@,
        value_field(SqlView::Null, float, delimiter) == Seq::<char>::empty(),
{
    lemma_number_is_unquoted(n);
    lemma_unquoted_field(text::signed_decimal(n as int), delimiter);
    lemma_blob_is_unquoted(b);
    lemma_unquoted_field("x'"@ + sql::hex_text(b) + "'"@, delimiter);
    if is_unquoted(number) || delimiter != ',' {
        lemma_unquoted_field(number, delimiter);
    }
    if is_unquoted(t) || delimiter != ',' {
        lemma_unquoted_field(t, delimiter);
    }
}

/// In a comma-separated line a number or text that needs quotes stands between two,
/// with its own ones doubled.
pub proof fn law_values_are_quoted(bits: u64, s: Seq<char>, i: int, float: Seq<char>)
    requires
        0 <= i < s.len(),
        s[i] == ',' || s[i] == '"' || s[i] == '\n',
    ensures
        value_field(SqlView::Float(bits), s, ',') == seq!['"'] + doubled(s) + seq!['"'],
        value_field(SqlView::Text(s), float, ',') == seq!['"'] + doubled(s) + seq!['"'],
{
    reveal_strlit("\"");
    assert("\""@ =~= seq!['"']);
    assert(s.contains(s[i]));
}

/// Doubling makes two double quotes of each, in their places, and leaves every other
/// character as it is.
pub proof fn law_doubling_is_by_character(a: Seq<char>, c: char, b: Seq<char>)
    ensures
        doubled(Seq::empty()) == Seq::<char>::empty(),
        doubled(a + seq![c] + b) == doubled(a) + (if c == '"' {
            seq!['"', '"']
        } else {
            seq![c]
        }) + doubled(b),
    decreases b.len(),
{
    let s = a + seq![c] + b;
    reveal_with_fuel(doubled, 2);
    if b.len() == 0 {
        assert(s.drop_last() =~= a);
        assert(s.last() == c);
        assert(doubled(s) =~= doubled(a) + (if c == '"' {
            seq!['"', '"']
        } else {
            seq![c]
        }) + doubled(b));
    } else {
        law_doubling_is_by_character(a, c, b.drop_last());
        assert(s.drop_last() =~= a + seq![c] + b.drop_last());
        assert(s.last() == b.last());
        assert(doubled(s) =~= doubled(a) + (if c == '"' {
            seq!['"', '"']
        } else {
            seq![c]
        }) + doubled(b));
    }
}

proof fn lemma_joined_fields_prepend(first: Seq<char>, rest: Seq<Seq<char>>, delimiter: char)
    requires
        rest.len() > 0,
    ensures
        joined_fields(seq![first] + rest, delimiter) == first + seq![delimiter] + joined_fields(
            rest,
            delimiter,
        ),
    decreases rest.len(),
{
    let all = seq![first] + rest;
    reveal_with_fuel(joined_fields, 2);
    assert(all.last() == rest.last());
    if rest.len() == 1 {
        assert(all.drop_last() =~= seq![first]);
        assert(joined_fields(all, delimiter) =~= first + seq![delimiter] + joined_fields(
            rest,
            delimiter,
        ));
    } else {
        assert(all.drop_last() =~= seq![first] + rest.drop_last());
        lemma_joined_fields_prepend(first, rest.drop_last(), delimiter);
        assert(joined_fields(all, delimiter) =~= first + seq![delimiter] + joined_fields(
            rest,
            delimiter,
        ));
    }
}

proof fn lemma_joined_fields(fields: Seq<Seq<char>>, delimiter: char)
    ensures
        joined_fields(fields, delimiter) == text::joined_with(fields, delimiter),
    decreases fields.len(),
{
    if fields.len() > 1 {
        let rest = fields.skip(1);
        assert(fields =~= seq![fields[0]] + rest);
        lemma_joined_fields(rest, delimiter);
        lemma_joined_fields_prepend(fields[0], rest, delimiter);
    }
}

/// A line holds its fields in their order, with one delimiter between any two: fields
/// without the delimiter are what the line is split into.
pub proof fn law_line_is_split_into_its_fields(fields: Seq<Seq<char>>, delimiter: char)
    requires
        fields.len() > 0,
        forall|k: int| 0 <= k < fields.len() ==> !(#[trigger] fields[k]).contains(delimiter),
    ensures
        text::pieces(joined_fields(fields, delimiter), delimiter) == fields,
        joined_fields(Seq::empty(), delimiter) == Seq::<char>::empty(),
{
    lemma_joined_fields(fields, delimiter);
    text::law_joined_text_splits_again(fields, delimiter);
}

/// A row has one field for each of its values, each with the value of its place.
pub proof fn law_row_has_a_field_for_each_value(
    row: Seq<Value>,
    floats: Seq<String>,
    delimiter: char,
    i: int,
)
    requires
        0 <= i < row.len(),
        floats.len() == row.len(),
    ensures
        row_fields(row, floats, delimiter, row.len()).len() == row.len(),
        row_fields(row, floats, delimiter, row.len())[i] == value_field(
            values::value_view(row[i]),
            floats[i]@,
            delimiter,
        ),
{
}

/// The text of a batch failure: the number of the statement, counted from 1, and its
/// error.
pub open spec fn failure_text(results: Seq<StatementResult>, i: int) -> Seq<char> {
    "Statement "@ + text::decimal((i + 1) as nat) + ": "@ + results[i].error@
}

/// Each statement that failed is told with its number and its error, and none else.
pub proof fn law_each_failure_is_told(results: Seq<StatementResult>)
    ensures
        forall|i: int|
            0 <= i < results.len() && (#[trigger] results[i]).error@.len() > 0 ==> failure_texts(
                results,
            ).contains(failure_text(results, i)),
        forall|k: int|
            0 <= k < failure_texts(results).len() ==> exists|i: int|
                0 <= i < results.len() && (#[trigger] results[i]).error@.len() > 0
                    && #[trigger] failure_texts(results)[k] == failure_text(results, i),
        (forall|i: int| 0 <= i < results.len() ==> (#[trigger] results[i]).error@.len() == 0)
            ==> failure_texts(results).len() == 0,
    decreases results.len(),
{
    let all = failure_texts(results);
    if results.len() > 0 {
        let rest = results.drop_last();
        let before = failure_texts(rest);
        let n = results.len() - 1;
        law_each_failure_is_told(rest);
        assert forall|i: int|
            0 <= i < results.len() && (#[trigger] results[i]).error@.len() > 0 implies all.contains(
            failure_text(results, i),
        ) by {
            if i < n {
                assert(rest[i] == results[i]);
                assert(before.contains(failure_text(rest, i)));
                let k = choose|k: int| 0 <= k < before.len() && before[k] == failure_text(rest, i);
                assert(all[k] == failure_text(results, i));
            } else {
                assert(all[all.len() - 1] == failure_text(results, i));
            }
        }
        assert forall|k: int| 0 <= k < all.len() implies exists|i: int|
            0 <= i < results.len() && (#[trigger] results[i]).error@.len() > 0
                && #[trigger] all[k] == failure_text(results, i) by {
            if k < before.len() {
                assert(all[k] == before[k]);
                let i = choose|i: int|
                    0 <= i < rest.len() && (#[trigger] rest[i]).error@.len() > 0 && before[k]
                        == failure_text(rest, i);
                assert(rest[i] == results[i]);
                assert(all[k] == failure_text(results, i));
            } else {
                assert(results[n].error@.len() > 0);
                assert(all[k] == failure_text(results, n));
            }
        }
        if forall|i: int| 0 <= i < results.len() ==> (#[trigger] results[i]).error@.len() == 0 {
            assert forall|i: int| 0 <= i < rest.len() implies (#[trigger] rest[i]).error@.len()
                == 0 by {
                assert(rest[i] == results[i]);
            }
            assert(results[n].error@.len() == 0);
        }
    }
}

/// A lease has the seconds left that its end is ahead, and none once it is over.
pub proof fn law_seconds_left_count_to_the_end(lease: LeaseStatus, now_secs: u64)
    requires
        lease.renewed_at_secs + lease.ttl_secs <= u64::MAX,
    ensures
        now_secs <= lease.renewed_at_secs + lease.ttl_secs ==> now_secs + seconds_left(
            lease,
            now_secs,
        ) == lease.renewed_at_secs + lease.ttl_secs,
        now_secs > lease.renewed_at_secs + lease.ttl_secs ==> seconds_left(lease, now_secs) == 0,
{
}

/// The text of a value outside of lines is the same as in a line without quotes, but
/// for NULL, which is spelled out.
pub proof fn law_value_text_matches_the_field(v: SqlView, float: Seq<char>)
    ensures
        v is Null ==> value_text(v, float) == "NULL"@,
        !(v is Null) ==> value_text(v, float) == value_field(v, float, '\t'),
{
}

/// The lines about a node tell its name, role, generation, version, uptime and
/// leader, each in its place, and then the leader's address and the lease, where there
/// are any.
pub proof fn law_status_tells_of_the_node(status: ClusterStatusResponse, now_secs: u64)
    ensures
        ({
            let lines = status_texts(status, now_secs);
            let url = status.current_leader_endpoint@.len() > 0;
            let held = status.lease matches Some(l) && l.holder_node_id@.len() > 0;
            &&& lines.len() == 6 + (if url { 1int } else { 0int }) + (if held { 1int } else { 0int
            })
            &&& status.node_id@.is_suffix_of(lines[0])
            &&& role_word(status.role).is_suffix_of(lines[1])
            &&& text::decimal(status.local_generation as nat).is_suffix_of(lines[2])
            &&& status.version@.is_suffix_of(lines[3])
            &&& (text::decimal(status.uptime_secs as nat) + "s"@).is_suffix_of(lines[4])
            &&& status.current_leader_id@.len() > 0 ==> status.current_leader_id@.is_suffix_of(
                lines[5],
            )
            &&& status.current_leader_id@.len() == 0 ==> "none"@.is_suffix_of(lines[5])
            &&& url ==> status.current_leader_endpoint@.is_suffix_of(lines[6])
            &&& held ==> {
                let l = status.lease->0;
                let line = lines[lines.len() - 1];
                &&& ("Lease Holder: "@ + l.holder_node_id@ + " (remaining: "@ + text::decimal(
                    seconds_left(l, now_secs) as nat,
                ) + "s"@).is_prefix_of(line)
                &&& l.is_expired ==> ", EXPIRED)"@.is_suffix_of(line)
                &&& !l.is_expired ==> "s)"@.is_suffix_of(line)
            }
        }),
{
    let lines = status_texts(status, now_secs);
    lemma_suffix("Cluster Node: "@, status.node_id@);
    lemma_suffix("Role:         "@, role_word(status.role));
    lemma_suffix("Generation:   "@, text::decimal(status.local_generation as nat));
    lemma_suffix("Version:      "@, status.version@);
    lemma_suffix("Uptime:       "@, text::decimal(status.uptime_secs as nat) + "s"@);
    assert("Uptime:       "@ + text::decimal(status.uptime_secs as nat) + "s"@
        =~= "Uptime:       "@ + (text::decimal(status.uptime_secs as nat) + "s"@));
    lemma_suffix("Active Leader:"@, status.current_leader_id@);
    lemma_suffix("Active Leader:"@, "none"@);
    lemma_suffix("Leader URL:   "@, status.current_leader_endpoint@);
    if status.lease is Some && status.lease->0.holder_node_id@.len() > 0 {
        let l = status.lease->0;
        let head = "Lease Holder: "@ + l.holder_node_id@ + " (remaining: "@ + text::decimal(
            seconds_left(l, now_secs) as nat,
        );
        let line = lines[lines.len() - 1];
        reveal_strlit("s");
        reveal_strlit(")");
        reveal_strlit("s)");
        reveal_strlit("");
        reveal_strlit(", EXPIRED");
        reveal_strlit(", EXPIRED)");
        assert((head + "s"@).is_prefix_of(line));
        if l.is_expired {
            assert(", EXPIRED"@ + ")"@ =~= ", EXPIRED)"@);
            lemma_suffix(head + "s"@, ", EXPIRED)"@);
            assert(line =~= head + "s"@ + ", EXPIRED)"@);
        } else {
            assert("s"@ + ")"@ =~= "s)"@);
            lemma_suffix(head, "s)"@);
            assert(line =~= head + "s)"@);
        }
    }
}

proof fn lemma_suffix(a: Seq<char>, b: Seq<char>)
    ensures
        b.is_suffix_of(a + b),
{
    assert((a + b).skip(a.len() as int) =~= b);
}

/// The roles are told by their names.
pub proof fn law_roles_are_told_by_name()
    ensures
        role_word(ReportedRole::Writer) == "writer"@,
        role_word(ReportedRole::Replica) == "replica"@,
        role_word(ReportedRole::Unspecified) == "unspecified"@,
{
}

/// The first line has the names of the columns, in their order.
pub proof fn law_header_line_names_the_columns(columns: Seq<ColumnHeader>, i: int)
    requires
        0 <= i < columns.len(),
    ensures
        column_names(columns).len() == columns.len(),
        column_names(columns)[i] == columns[i].name@,
{
}

/// Results are shown in lines in three formats, each with a delimiter of its own:
/// numbers in a line can be told apart in all of them.
pub proof fn law_formats_of_lines_have_delimiters(format: OutputFormat, n: i64, m: i64)
    ensures
        delimiter(format) is Some <==> format == OutputFormat::Csv || format == OutputFormat::Tsv
            || format == OutputFormat::Raw,
        delimiter(OutputFormat::Csv) == Some(','),
        delimiter(OutputFormat::Tsv) == Some('\t'),
        delimiter(OutputFormat::Raw) == Some(' '),
        delimiter(format) matches Some(c) ==> text::pieces(
            joined_fields(
                seq![text::signed_decimal(n as int), text::signed_decimal(m as int)],
                c,
            ),
            c,
        ) == seq![text::signed_decimal(n as int), text::signed_decimal(m as int)],
{
    if delimiter(format) is Some {
        let c = delimiter(format)->0;
        let fields = seq![text::signed_decimal(n as int), text::signed_decimal(m as int)];
        lemma_number_has_no(n, c);
        lemma_number_has_no(m, c);
        law_line_is_split_into_its_fields(fields, c);
    }
}

proof fn lemma_number_has_no(n: i64, c: char)
    requires
        c == ',' || c == '\t' || c == ' ',
    ensures
        !text::signed_decimal(n as int).contains(c),
{
    let s = text::signed_decimal(n as int);
    let digits = text::decimal(if n < 0 { (-n) as nat } else { n as nat });
    text::lemma_decimal_round_trip(if n < 0 { (-n) as nat } else { n as nat });
    assert forall|i: int| 0 <= i < s.len() implies s[i] != c by {
        if n < 0 {
            if i > 0 {
                assert(s[i] == digits[i - 1]);
                assert(text::is_digit(digits[i - 1]));
            }
        } else {
            assert(text::is_digit(digits[i]));
        }
    }
}

/// The failures are told in the order of the statements: those of the first
/// statements come first.
pub proof fn law_failures_are_told_in_order(results: Seq<StatementResult>, n: int)
    requires
        0 <= n <= results.len(),
    ensures
        failure_texts(results.take(n)).is_prefix_of(failure_texts(results)),
        failure_texts(results).len() <= results.len(),
    decreases results.len(),
{
    if n == results.len() {
        assert(results.take(n) =~= results);
        if n > 0 {
            law_failures_are_told_in_order(results.drop_last(), n - 1);
        }
    } else {
        let rest = results.drop_last();
        law_failures_are_told_in_order(rest, n);
        assert(rest.take(n) =~= results.take(n));
        assert(failure_texts(rest).is_prefix_of(failure_texts(results)));
    }
}

/// The end of a lease that would lie beyond the last second of the clock is that
/// second.
pub proof fn law_seconds_left_to_the_end_of_the_clock(lease: LeaseStatus, now_secs: u64)
    requires
        lease.renewed_at_secs + lease.ttl_secs > u64::MAX,
    ensures
        now_secs + seconds_left(lease, now_secs) == u64::MAX,
{
}

/// The title of a column is its name alone where it has no declared type, and else
/// its name in the first line and its type in brackets in the next.
pub proof fn law_title_shows_name_and_type(name: Seq<char>, declared_type: Seq<char>)
    requires
        !name.contains('\n'),
        !declared_type.contains('\n'),
    ensures
        text::pieces(title_text(name, Seq::empty()), '\n') == seq![name],
        declared_type.len() > 0 ==> text::pieces(title_text(name, declared_type), '\n') == seq![
            name,
            "("@ + declared_type + ")"@,
        ],
{
    text::law_joined_text_splits_again(seq![name], '\n');
    assert(text::joined_with(seq![name], '\n') == name);
    reveal_strlit("\n(");
    reveal_strlit("(");
    reveal_strlit(")");
    let second = "("@ + declared_type + ")"@;
    let lines = seq![name, second];
    assert forall|i: int| 0 <= i < second.len() implies second[i] != '\n' by {
        if 0 < i < second.len() - 1 {
            assert(second[i] == declared_type[i - 1]);
        }
    }
    text::law_joined_text_splits_again(lines, '\n');
    assert(lines.skip(1) =~= seq![second]);
    assert(text::joined_with(seq![second], '\n') == second);
    assert("\n("@ =~= seq!['\n'] + "("@);
    assert(name + "\n("@ + declared_type + ")"@ =~= text::joined_with(lines, '\n'));
}

/// The values of a row have the names of their columns, and made up names, each its
/// own, where there are more values than columns.
pub proof fn law_values_have_their_own_keys(columns: Seq<ColumnHeader>, i: nat, j: nat)
    ensures
        i < columns.len() ==> key_text(columns, i) == columns[i as int].name@,
        i >= columns.len() && j >= columns.len() && key_text(columns, i) == key_text(columns, j)
            ==> i == j,
        i >= columns.len() ==> "col_"@.is_prefix_of(key_text(columns, i)),
{
    if i >= columns.len() && j >= columns.len() && key_text(columns, i) == key_text(columns, j) {
        let n = "col_"@.len() as int;
        assert(key_text(columns, i).skip(n) =~= text::decimal(i));
        assert(key_text(columns, j).skip(n) =~= text::decimal(j));
        text::lemma_decimal_round_trip(i);
        text::lemma_decimal_round_trip(j);
    }
}

} // verus!
