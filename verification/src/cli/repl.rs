//! The interactive shell of the client.
use vstd::prelude::*;

use crate::cli::args::OutputFormat;
use crate::cli::sql;
use crate::gateway::engine;
use crate::proto::{Parameters, Row, Value, ValueKind};
use crate::text;

verus! {

/// The query for the tables of a database.
pub const TABLES_SQL: &'static str =
    "SELECT name FROM sqlite_master WHERE type='table' AND name NOT LIKE 'sqlite_%' ORDER BY name;";

/// The query for the schema of a table.
pub const TABLE_SCHEMA_SQL: &'static str =
    "SELECT sql FROM sqlite_master WHERE type='table' AND name=?;";

/// The query for the schemas of all tables.
pub const SCHEMA_SQL: &'static str =
    "SELECT sql FROM sqlite_master WHERE type='table' AND name NOT LIKE 'sqlite_%' ORDER BY name;";

impl OutputFormat {
    /// The name of this format.
    pub open spec fn label(self) -> Seq<char> {
        match self {
            OutputFormat::Table => "Table"@,
            OutputFormat::Json => "Json"@,
            OutputFormat::Csv => "Csv"@,
            OutputFormat::Tsv => "Tsv"@,
            OutputFormat::Raw => "Raw"@,
        }
    }

    /// The name of this format.
    pub fn name(&self) -> (r: &'static str)
        ensures
            r@ == self.label(),
    {
        match self {
            OutputFormat::Table => "Table",
            OutputFormat::Json => "Json",
            OutputFormat::Csv => "Csv",
            OutputFormat::Tsv => "Tsv",
            OutputFormat::Raw => "Raw",
        }
    }

    /// The format that a word in lower case stands for.
    pub open spec fn of_word(word: Seq<char>) -> Option<OutputFormat> {
        if word == "table"@ {
            Some(OutputFormat::Table)
        } else if word == "json"@ {
            Some(OutputFormat::Json)
        } else if word == "csv"@ {
            Some(OutputFormat::Csv)
        } else if word == "tsv"@ {
            Some(OutputFormat::Tsv)
        } else if word == "raw"@ {
            Some(OutputFormat::Raw)
        } else {
            None
        }
    }

    /// The format that a word in lower case stands for.
    pub fn from_word(word: &str) -> (r: Option<OutputFormat>)
        ensures
            r == OutputFormat::of_word(word@),
    {
        let w: String = word.to_owned();
        if w == "table".to_owned() {
            Some(OutputFormat::Table)
        } else if w == "json".to_owned() {
            Some(OutputFormat::Json)
        } else if w == "csv".to_owned() {
            Some(OutputFormat::Csv)
        } else if w == "tsv".to_owned() {
            Some(OutputFormat::Tsv)
        } else if w == "raw".to_owned() {
            Some(OutputFormat::Raw)
        } else {
            None
        }
    }
}

/// What a metacommand asks for.
#[derive(Debug, PartialEq, Eq)]
pub enum MetaAction {
    /// Nothing more.
    Nothing,
    /// End the shell.
    Quit,
    /// Show the rows of this query.
    ShowRows { sql: String },
    /// Show the schemas that this query gives.
    ShowSchema { sql: String, parameters: Option<Parameters> },
    /// Show the status of the cluster.
    ShowStatus,
    /// Run the script in this file.
    RunFile(String),
}

/// What a metacommand asks for, as plain data.
#[verifier::ext_equal]
pub enum MetaView {
    Nothing,
    Quit,
    ShowRows(Seq<char>),
    /// The query and, where it is asked for, the table.
    ShowSchema(Seq<char>, Option<Seq<char>>),
    ShowStatus,
    RunFile(Seq<char>),
}

/// Whether these parameters are the one text given.
pub open spec fn is_text_parameter(p: Option<Parameters>, t: Option<Seq<char>>) -> bool {
    match (p, t) {
        (None, None) => true,
        (Some(params), Some(name)) => params.named@.len() == 0 && params.positional@.len() == 1
            && (params.positional@[0].value matches Some(ValueKind::TextValue(s)) && s@ == name),
        _ => false,
    }
}

impl MetaAction {
    /// Whether this asks for what `v` says.
    pub open spec fn is(self, v: MetaView) -> bool {
        match self {
            MetaAction::Nothing => v is Nothing,
            MetaAction::Quit => v is Quit,
            MetaAction::ShowRows { sql } => v == MetaView::ShowRows(sql@),
            MetaAction::ShowSchema { sql, parameters } => v matches MetaView::ShowSchema(s, t)
                && s == sql@ && is_text_parameter(parameters, t),
            MetaAction::ShowStatus => v is ShowStatus,
            MetaAction::RunFile(path) => v == MetaView::RunFile(path@),
        }
    }
}

/// What comes of a metacommand: warnings, lines to show, and what it asks for.
#[derive(Debug)]
pub struct MetaOutcome {
    pub warning: Option<String>,
    pub lines: Vec<String>,
    pub action: MetaAction,
}

/// The shell and what comes of a metacommand, as plain data.
#[verifier::ext_equal]
pub struct ReplView {
    pub database: Seq<char>,
    pub format: OutputFormat,
    pub warning: Option<Seq<char>>,
    pub lines: Seq<Seq<char>>,
    pub action: MetaView,
}

/// The lines of the help.
pub open spec fn help_texts() -> Seq<Seq<char>> {
    seq![
        "Metacommands:"@,
        "  .help                   Show this help menu"@,
        "  .tables                 List tables in the current database"@,
        "  .schema [TABLE]         Show CREATE statement for table(s)"@,
        "  .database [NAME]        Show or change active database"@,
        "  .mode [table|json|csv|tsv|raw]  Change output display format"@,
        "  .status                 Show cluster leadership & status"@,
        "  .read <FILE>            Execute SQL script from file"@,
        "  .quit                   Exit REPL"@,
    ]
}

/// The lines of the help.
pub fn help_lines() -> (r: Vec<String>)
    ensures
        text::views(r@) == help_texts(),
{
    let mut out: Vec<String> = Vec::new();
    out.push("Metacommands:".to_owned());
    out.push("  .help                   Show this help menu".to_owned());
    out.push("  .tables                 List tables in the current database".to_owned());
    out.push("  .schema [TABLE]         Show CREATE statement for table(s)".to_owned());
    out.push("  .database [NAME]        Show or change active database".to_owned());
    out.push("  .mode [table|json|csv|tsv|raw]  Change output display format".to_owned());
    out.push("  .status                 Show cluster leadership & status".to_owned());
    out.push("  .read <FILE>            Execute SQL script from file".to_owned());
    out.push("  .quit                   Exit REPL".to_owned());
    assert(text::views(out@) =~= help_texts());
    out
}

/// What comes of a metacommand of these words, where the second one in lower
/// case is `lowered`.
pub open spec fn after_command(
    database: Seq<char>,
    format: OutputFormat,
    words: Seq<Seq<char>>,
    lowered: Seq<char>,
) -> ReplView {
    let name = if words.len() > 0 {
        words[0]
    } else {
        ""@
    };
    let quiet = ReplView {
        database,
        format,
        warning: None,
        lines: Seq::empty(),
        action: MetaView::Nothing,
    };
    if name == ".quit"@ || name == ".exit"@ || name == ".q"@ {
        ReplView { action: MetaView::Quit, ..quiet }
    } else if name == ".help"@ || name == ".h"@ {
        ReplView { lines: help_texts(), ..quiet }
    } else if name == ".tables"@ {
        ReplView { action: MetaView::ShowRows(TABLES_SQL@), ..quiet }
    } else if name == ".schema"@ {
        ReplView {
            action: if words.len() > 1 {
                MetaView::ShowSchema(TABLE_SCHEMA_SQL@, Some(words[1]))
            } else {
                MetaView::ShowSchema(SCHEMA_SQL@, None)
            },
            ..quiet
        }
    } else if name == ".database"@ || name == ".db"@ {
        if words.len() > 1 {
            ReplView {
                database: words[1],
                lines: seq!["Switched active database to '"@ + words[1] + "'"@],
                ..quiet
            }
        } else {
            ReplView { lines: seq!["Active database: '"@ + database + "'"@], ..quiet }
        }
    } else if name == ".mode"@ {
        if words.len() > 1 {
            match OutputFormat::of_word(lowered) {
                Some(f) => ReplView {
                    format: f,
                    lines: seq!["Output mode: "@ + f.label()],
                    ..quiet
                },
                None => ReplView {
                    warning: Some(
                        "Unknown output format: '"@ + lowered
                            + "'. Available: table, json, csv, tsv, raw"@,
                    ),
                    lines: seq!["Output mode: "@ + format.label()],
                    ..quiet
                },
            }
        } else {
            ReplView { lines: seq!["Current output mode: "@ + format.label()], ..quiet }
        }
    } else if name == ".status"@ {
        ReplView { action: MetaView::ShowStatus, ..quiet }
    } else if name == ".read"@ {
        if words.len() > 1 {
            ReplView { action: MetaView::RunFile(words[1]), ..quiet }
        } else {
            ReplView { warning: Some("Usage: .read <PATH_TO_SQL_FILE>"@), ..quiet }
        }
    } else {
        ReplView {
            warning: Some(
                "Unknown metacommand: '"@ + name + "'. Type .help for available commands."@,
            ),
            ..quiet
        }
    }
}

/// Whether this came of a metacommand.
pub open spec fn came_of(outcome: MetaOutcome, v: ReplView) -> bool {
    &&& text::opt_view(outcome.warning) == v.warning
    &&& text::views(outcome.lines@) == v.lines
    &&& outcome.action.is(v.action)
}

/// What a line of the shell is.
#[derive(Debug, PartialEq, Eq)]
pub enum LineKind {
    /// Nothing.
    Blank,
    /// A metacommand.
    Meta(String),
    /// A query.
    Query(String),
    /// A write.
    Write(String),
}

/// Whether this is the kind of a line, given whether its text is a query.
pub open spec fn is_kind(kind: LineKind, line: Seq<char>, is_query: bool) -> bool {
    let t = text::trimmed(line);
    if t.len() == 0 {
        kind is Blank
    } else if t[0] == '.' {
        kind matches LineKind::Meta(s) && s@ == t
    } else if is_query {
        kind matches LineKind::Query(s) && s@ == t
    } else {
        kind matches LineKind::Write(s) && s@ == t
    }
}

/// What a line of the shell is, given whether its text is a query.
pub fn line_kind(line: &str, is_query: bool) -> (r: LineKind)
    ensures
        is_kind(r, line@, is_query),
{
    let t: String = text::trim(line);
    if t.as_str().is_empty() {
        return LineKind::Blank;
    }
    let v: Vec<char> = text::chars_of(t.as_str());
    if v[0] == '.' {
        LineKind::Meta(t)
    } else if is_query {
        LineKind::Query(t)
    } else {
        LineKind::Write(t)
    }
}

/// What a line of the shell is.
pub fn read_line(line: &str) -> (r: LineKind)
    ensures
        is_kind(r, line@, sql::begins_like_query(text::uppercased(text::trimmed(line@)))),
{
    let is_query: bool = sql::is_query_sql(line);
    line_kind(line, is_query)
}

/// The state of the shell.
#[derive(Debug)]
pub struct Repl {
    database: String,
    format: OutputFormat,
}

fn one_line(a: &str, b: &str, c: &str) -> (r: Vec<String>)
    ensures
        text::views(r@) == seq![a@ + b@ + c@],
{
    let mut s: String = a.to_owned();
    s.append(b);
    s.append(c);
    let mut lines: Vec<String> = Vec::new();
    lines.push(s);
    assert(text::views(lines@) =~= seq![a@ + b@ + c@]);
    lines
}

fn labelled(a: &str, format: OutputFormat) -> (r: Vec<String>)
    ensures
        text::views(r@) == seq![a@ + format.label()],
{
    let mut s: String = a.to_owned();
    s.append(format.name());
    let mut lines: Vec<String> = Vec::new();
    lines.push(s);
    assert(text::views(lines@) =~= seq![a@ + format.label()]);
    lines
}

fn just(action: MetaAction) -> (r: MetaOutcome)
    ensures
        r.warning is None,
        text::views(r.lines@) == Seq::<Seq<char>>::empty(),
        r.action == action,
{
    let r: MetaOutcome = MetaOutcome { warning: None, lines: Vec::new(), action };
    assert(text::views(r.lines@) =~= Seq::<Seq<char>>::empty());
    r
}

fn warn(warning: String) -> (r: MetaOutcome)
    ensures
        r.warning == Some(warning),
        text::views(r.lines@) == Seq::<Seq<char>>::empty(),
        r.action is Nothing,
{
    let r: MetaOutcome = MetaOutcome {
        warning: Some(warning),
        lines: Vec::new(),
        action: MetaAction::Nothing,
    };
    assert(text::views(r.lines@) =~= Seq::<Seq<char>>::empty());
    r
}

fn show(lines: Vec<String>) -> (r: MetaOutcome)
    ensures
        r.warning is None,
        r.lines == lines,
        r.action is Nothing,
{
    MetaOutcome { warning: None, lines, action: MetaAction::Nothing }
}

impl Repl {
    /// The database in use.
    pub closed spec fn current_database(self) -> Seq<char> {
        self.database@
    }

    /// The format in use.
    pub closed spec fn current_format(self) -> OutputFormat {
        self.format
    }

    /// A shell on this database.
    pub fn new(database: &str, format: OutputFormat) -> (r: Repl)
        ensures
            r.current_database() == database@,
            r.current_format() == format,
    {
        Repl { database: database.to_owned(), format }
    }

    /// The database in use.
    pub fn database(&self) -> (r: &str)
        ensures
            r@ == self.current_database(),
    {
        self.database.as_str()
    }

    /// The format in use.
    pub fn format(&self) -> (r: OutputFormat)
        ensures
            r == self.current_format(),
    {
        self.format
    }

    /// What the user is shown to type behind.
    pub fn prompt(&self) -> (r: String)
        ensures
            r@ == "rsqlite ["@ + self.current_database() + "]> "@,
    {
        let mut s: String = "rsqlite [".to_owned();
        s.append(self.database.as_str());
        s.append("]> ");
        s
    }

    /// Carry out a metacommand of these words, where the second one in lower case
    /// is `lowered`.
    pub fn command(&mut self, words: &Vec<String>, lowered: &str) -> (r: MetaOutcome)
        ensures
            ({
                let v = after_command(
                    old(self).current_database(),
                    old(self).current_format(),
                    text::views(words@),
                    lowered@,
                );
                &&& final(self).current_database() == v.database
                &&& final(self).current_format() == v.format
                &&& came_of(r, v)
            }),
    {
        let name: String = if words.len() > 0 {
            assert(text::views(words@)[0] == words@[0]@);
            words[0].clone()
        } else {
            "".to_owned()
        };
        if words.len() > 1 {
            assert(text::views(words@)[1] == words@[1]@);
        }
        if name == ".quit".to_owned() || name == ".exit".to_owned() || name == ".q".to_owned() {
            return just(MetaAction::Quit);
        }
        if name == ".help".to_owned() || name == ".h".to_owned() {
            return show(help_lines());
        }
        if name == ".tables".to_owned() {
            return just(MetaAction::ShowRows { sql: TABLES_SQL.to_owned() });
        }
        if name == ".schema".to_owned() {
            if words.len() > 1 {
                let mut positional: Vec<Value> = Vec::new();
                positional.push(Value { value: Some(ValueKind::TextValue(words[1].clone())) });
                let parameters: Option<Parameters> = Some(
                    Parameters { positional, named: Vec::new() },
                );
                return just(
                    MetaAction::ShowSchema { sql: TABLE_SCHEMA_SQL.to_owned(), parameters },
                );
            }
            return just(MetaAction::ShowSchema { sql: SCHEMA_SQL.to_owned(), parameters: None });
        }
        if name == ".database".to_owned() || name == ".db".to_owned() {
            if words.len() > 1 {
                self.database = words[1].clone();
                return show(
                    one_line("Switched active database to '", self.database.as_str(), "'"),
                );
            }
            return show(one_line("Active database: '", self.database.as_str(), "'"));
        }
        if name == ".mode".to_owned() {
            if words.len() > 1 {
                return match OutputFormat::from_word(lowered) {
                    Some(f) => {
                        self.format = f;
                        show(labelled("Output mode: ", f))
                    },
                    None => {
                        let mut w: String = "Unknown output format: '".to_owned();
                        w.append(lowered);
                        w.append("'. Available: table, json, csv, tsv, raw");
                        MetaOutcome {
                            warning: Some(w),
                            lines: labelled("Output mode: ", self.format),
                            action: MetaAction::Nothing,
                        }
                    },
                };
            }
            return show(labelled("Current output mode: ", self.format));
        }
        if name == ".status".to_owned() {
            return just(MetaAction::ShowStatus);
        }
        if name == ".read".to_owned() {
            if words.len() > 1 {
                return just(MetaAction::RunFile(words[1].clone()));
            }
            return warn("Usage: .read <PATH_TO_SQL_FILE>".to_owned());
        }
        let mut w: String = "Unknown metacommand: '".to_owned();
        w.append(name.as_str());
        w.append("'. Type .help for available commands.");
        warn(w)
    }

    /// Carry out a metacommand.
    pub fn handle_metacommand(&mut self, cmd: &str) -> (r: MetaOutcome)
        ensures
            ({
                let words = text::words(cmd@);
                let v = after_command(
                    old(self).current_database(),
                    old(self).current_format(),
                    words,
                    text::lowercased(
                        if words.len() > 1 {
                            words[1]
                        } else {
                            ""@
                        },
                    ),
                );
                &&& final(self).current_database() == v.database
                &&& final(self).current_format() == v.format
                &&& came_of(r, v)
            }),
    {
        let words: Vec<String> = text::split_words(cmd);
        assert(text::views(words@).len() == words@.len());
        let lowered: String = if words.len() > 1 {
            assert(text::views(words@)[1] == words@[1]@);
            text::to_lowercase(words[1].as_str())
        } else {
            text::to_lowercase("")
        };
        self.command(&words, lowered.as_str())
    }
}

/// Only `.database` and `.db` change the database in use, only `.mode` changes
/// the format, and only `.quit`, `.exit` and `.q` end the shell.
pub proof fn law_commands_change_only_their_own(
    database: Seq<char>,
    format: OutputFormat,
    words: Seq<Seq<char>>,
    lowered: Seq<char>,
)
    ensures
        ({
            let v = after_command(database, format, words, lowered);
            &&& v.database != database ==> words.len() > 1 && (words[0] == ".database"@ || words[0]
                == ".db"@)
            &&& v.format != format ==> words.len() > 1 && words[0] == ".mode"@
            &&& v.action is Quit ==> words.len() > 0 && (words[0] == ".quit"@ || words[0]
                == ".exit"@ || words[0] == ".q"@)
        }),
{
    reveal_strlit("");
    reveal_strlit(".quit");
    reveal_strlit(".exit");
    reveal_strlit(".q");
}

/// The schemas of a result, each with what is shown behind it.
pub open spec fn schema_texts(rows: Seq<Row>) -> Seq<Seq<char>>
    decreases rows.len(),
{
    if rows.len() == 0 {
        Seq::empty()
    } else {
        let before = schema_texts(rows.drop_last());
        let values = rows.last().values@;
        if values.len() > 0 {
            match values[0].value {
                Some(ValueKind::TextValue(t)) => before.push(t@ + ";\n"@),
                _ => before,
            }
        } else {
            before
        }
    }
}

/// The schemas of a result.
pub fn schema_lines(rows: &Vec<Row>) -> (r: Vec<String>)
    ensures
        text::views(r@) == schema_texts(rows@),
{
    let mut out: Vec<String> = Vec::new();
    let mut i: usize = 0;
    assert(text::views(out@) =~= schema_texts(rows@.take(0)));
    while i < rows.len()
        invariant
            i <= rows@.len(),
            text::views(out@) == schema_texts(rows@.take(i as int)),
        decreases rows@.len() - i,
    {
        let ghost before = out@;
        assert(rows@.take(i + 1).drop_last() == rows@.take(i as int));
        assert(rows@.take(i + 1).last() == rows@[i as int]);
        if rows[i].values.len() > 0 {
            match &rows[i].values[0].value {
                Some(ValueKind::TextValue(t)) => {
                    let mut s: String = t.clone();
                    s.append(";\n");
                    out.push(s);
                    assert(text::views(out@) =~= text::views(before).push(s@));
                },
                _ => {},
            }
        }
        i = i + 1;
    }
    assert(rows@.take(i as int) == rows@);
    out
}

/// What is said before a script is run.
pub fn script_announcement(count: usize, path: &str) -> (r: String)
    ensures
        r@ == "Executing "@ + text::decimal(count as nat) + " statements from "@ + path@ + "..."@,
{
    let mut s: String = "Executing ".to_owned();
    s.append(text::u64_text(count as u64).as_str());
    s.append(" statements from ");
    s.append(path);
    s.append("...");
    s
}

/// The file of the history of the shell, below the home directory.
pub fn history_path(home: Option<&str>) -> (r: Option<String>)
    ensures
        match home {
            Some(h) => text::opt_view(r) == Some(engine::joined(h@, ".rsqlite_history"@)),
            None => r is None,
        },
{
    match home {
        None => None,
        Some(h) => {
            let mut s: String = h.to_owned();
            let v: Vec<char> = text::chars_of(h);
            if v.len() > 0 && v[v.len() - 1] != '/' {
                s.push('/');
                assert(s@ == h@ + seq!['/']);
            }
            s.append(".rsqlite_history");
            Some(s)
        },
    }
}

// ---------------------------------------------------------------------------
// What the commands do
// ---------------------------------------------------------------------------

/// The names of the commands are different from each other.
proof fn lemma_command_names()
    ensures
        ({
            let names = seq![
                ".quit"@,
                ".exit"@,
                ".q"@,
                ".help"@,
                ".h"@,
                ".tables"@,
                ".schema"@,
                ".database"@,
                ".db"@,
                ".mode"@,
                ".status"@,
                ".read"@,
            ];
            forall|i: int, j: int|
                0 <= i < j < names.len() ==> (#[trigger] names[i]) != (#[trigger] names[j])
        }),
{
    reveal_strlit(".quit");
    reveal_strlit(".exit");
    reveal_strlit(".q");
    reveal_strlit(".help");
    reveal_strlit(".h");
    reveal_strlit(".tables");
    reveal_strlit(".schema");
    reveal_strlit(".database");
    reveal_strlit(".db");
    reveal_strlit(".mode");
    reveal_strlit(".status");
    reveal_strlit(".read");
    let names = seq![
        ".quit"@,
        ".exit"@,
        ".q"@,
        ".help"@,
        ".h"@,
        ".tables"@,
        ".schema"@,
        ".database"@,
        ".db"@,
        ".mode"@,
        ".status"@,
        ".read"@,
    ];
    assert(names[0].len() == 5 && names[0][1] == 'q');
    assert(names[1].len() == 5 && names[1][1] == 'e');
    assert(names[2].len() == 2 && names[2][1] == 'q');
    assert(names[3].len() == 5 && names[3][1] == 'h');
    assert(names[4].len() == 2 && names[4][1] == 'h');
    assert(names[5].len() == 7 && names[5][1] == 't');
    assert(names[6].len() == 7 && names[6][1] == 's' && names[6][2] == 'c');
    assert(names[7].len() == 9);
    assert(names[8].len() == 3);
    assert(names[9].len() == 5 && names[9][1] == 'm');
    assert(names[10].len() == 7 && names[10][1] == 's' && names[10][2] == 't');
    assert(names[11].len() == 5 && names[11][1] == 'r');
    assert forall|i: int, j: int| 0 <= i < j < names.len() implies (#[trigger] names[i]) != (
    #[trigger] names[j]) by {
        let a = names[i];
        let b = names[j];
        assert(a.len() != b.len() || a[1] != b[1] || a[2] != b[2]);
    }
}

/// Each command does what it is for, with the word behind its name where it takes
/// one, whatever follows.
pub proof fn law_commands_do_what_they_are_for(
    database: Seq<char>,
    format: OutputFormat,
    words: Seq<Seq<char>>,
    lowered: Seq<char>,
)
    requires
        words.len() > 0,
    ensures
        ({
            let v = after_command(database, format, words, lowered);
            let name = words[0];
            &&& name == ".quit"@ || name == ".exit"@ || name == ".q"@ ==> v.action is Quit
            &&& name == ".help"@ || name == ".h"@ ==> v.lines == help_texts() && v.action is Nothing
            &&& name == ".tables"@ ==> v.action == MetaView::ShowRows(TABLES_SQL@)
            &&& name == ".schema"@ && words.len() > 1 ==> v.action == MetaView::ShowSchema(
                TABLE_SCHEMA_SQL@,
                Some(words[1]),
            )
            &&& name == ".schema"@ && words.len() == 1 ==> v.action == MetaView::ShowSchema(
                SCHEMA_SQL@,
                None,
            )
            &&& (name == ".database"@ || name == ".db"@) && words.len() > 1 ==> v.database
                == words[1]
            &&& (name == ".database"@ || name == ".db"@) && words.len() == 1 ==> v.database
                == database && v.lines == seq!["Active database: '"@ + database + "'"@]
            &&& name == ".mode"@ && words.len() > 1 && lowered == "table"@ ==> v.format
                == OutputFormat::Table
            &&& name == ".mode"@ && words.len() > 1 && lowered == "json"@ ==> v.format
                == OutputFormat::Json
            &&& name == ".mode"@ && words.len() > 1 && lowered == "csv"@ ==> v.format
                == OutputFormat::Csv
            &&& name == ".mode"@ && words.len() > 1 && lowered == "tsv"@ ==> v.format
                == OutputFormat::Tsv
            &&& name == ".mode"@ && words.len() > 1 && lowered == "raw"@ ==> v.format
                == OutputFormat::Raw
            &&& name == ".status"@ ==> v.action is ShowStatus
            &&& name == ".read"@ && words.len() > 1 ==> v.action == MetaView::RunFile(words[1])
            &&& name == ".read"@ && words.len() == 1 ==> v.warning is Some && v.action is Nothing
        }),
{
    lemma_command_names();
    let names = seq![
        ".quit"@,
        ".exit"@,
        ".q"@,
        ".help"@,
        ".h"@,
        ".tables"@,
        ".schema"@,
        ".database"@,
        ".db"@,
        ".mode"@,
        ".status"@,
        ".read"@,
    ];
    assert(names[0] == ".quit"@ && names[1] == ".exit"@ && names[2] == ".q"@ && names[3]
        == ".help"@ && names[4] == ".h"@ && names[5] == ".tables"@ && names[6] == ".schema"@
        && names[7] == ".database"@ && names[8] == ".db"@ && names[9] == ".mode"@ && names[10]
        == ".status"@ && names[11] == ".read"@);
    law_words_name_their_formats();
}

/// The formats are named by their words in lower case, each by its own.
pub proof fn law_words_name_their_formats()
    ensures
        OutputFormat::of_word("table"@) == Some(OutputFormat::Table),
        OutputFormat::of_word("json"@) == Some(OutputFormat::Json),
        OutputFormat::of_word("csv"@) == Some(OutputFormat::Csv),
        OutputFormat::of_word("tsv"@) == Some(OutputFormat::Tsv),
        OutputFormat::of_word("raw"@) == Some(OutputFormat::Raw),
        forall|word: Seq<char>| #[trigger]
            OutputFormat::of_word(word) is Some ==> word == "table"@ || word == "json"@ || word
                == "csv"@ || word == "tsv"@ || word == "raw"@,
{
    reveal_strlit("table");
    reveal_strlit("json");
    reveal_strlit("csv");
    reveal_strlit("tsv");
    reveal_strlit("raw");
    assert("table"@.len() == 5 && "json"@.len() == 4 && "csv"@.len() == 3 && "tsv"@.len() == 3
        && "raw"@.len() == 3);
    assert("csv"@[0] == 'c' && "tsv"@[0] == 't' && "raw"@[0] == 'r');
}

/// A word that names no format leaves the format as it is, with a warning; a command
/// that is not known does nothing but warn.
pub proof fn law_unknown_words_only_warn(
    database: Seq<char>,
    format: OutputFormat,
    words: Seq<Seq<char>>,
    lowered: Seq<char>,
)
    requires
        words.len() > 0,
        words[0] == ".mode"@ && words.len() > 1 && OutputFormat::of_word(lowered) is None || (
        words[0].len() == 0 || words[0][0] != '.'),
    ensures
        ({
            let v = after_command(database, format, words, lowered);
            &&& v.warning is Some
            &&& v.database == database
            &&& v.format == format
            &&& v.action is Nothing
        }),
{
    lemma_command_names();
    let names = seq![
        ".quit"@,
        ".exit"@,
        ".q"@,
        ".help"@,
        ".h"@,
        ".tables"@,
        ".schema"@,
        ".database"@,
        ".db"@,
        ".mode"@,
        ".status"@,
        ".read"@,
    ];
    assert(names[0] == ".quit"@ && names[1] == ".exit"@ && names[2] == ".q"@ && names[3]
        == ".help"@ && names[4] == ".h"@ && names[5] == ".tables"@ && names[6] == ".schema"@
        && names[7] == ".database"@ && names[8] == ".db"@ && names[9] == ".mode"@ && names[10]
        == ".status"@ && names[11] == ".read"@);
    reveal_strlit(".quit");
    reveal_strlit(".exit");
    reveal_strlit(".q");
    reveal_strlit(".help");
    reveal_strlit(".h");
    reveal_strlit(".tables");
    reveal_strlit(".schema");
    reveal_strlit(".database");
    reveal_strlit(".db");
    reveal_strlit(".mode");
    reveal_strlit(".status");
    reveal_strlit(".read");
    assert(forall|i: int| 0 <= i < names.len() ==> (#[trigger] names[i])[0] == '.');
}

/// A line is a command exactly if it starts with a dot behind white space, and else a
/// query or a write, as its text is; a blank one is nothing.
pub proof fn law_lines_are_told_by_their_start(
    kind: LineKind,
    pre: Seq<char>,
    t: Seq<char>,
    post: Seq<char>,
    is_query: bool,
)
    requires
        text::all_spaces(pre),
        text::all_spaces(post),
        t.len() > 0 ==> !text::is_space(t[0]) && !text::is_space(t.last()),
        is_kind(kind, pre + t + post, is_query),
    ensures
        kind is Blank <==> t.len() == 0,
        kind is Meta <==> t.len() > 0 && t[0] == '.',
        kind is Query <==> t.len() > 0 && t[0] != '.' && is_query,
        kind is Write <==> t.len() > 0 && t[0] != '.' && !is_query,
        kind matches LineKind::Meta(s) ==> s@ == t,
        kind matches LineKind::Query(s) ==> s@ == t,
        kind matches LineKind::Write(s) ==> s@ == t,
{
    text::law_trimming_takes_the_surrounding_space(pre, t, post);
}

/// The schema of a row is its first value, where that is a text; the schemas come in
/// the order of the rows.
pub proof fn law_schemas_come_in_order(first: Seq<Row>, row: Row, second: Seq<Row>)
    ensures
        schema_texts(first + seq![row] + second) == schema_texts(first) + (if row.values@.len() > 0
            && (row.values@[0].value matches Some(ValueKind::TextValue(_))) {
            seq![row.values@[0].value->0->TextValue_0@ + ";\n"@]
        } else {
            Seq::empty()
        }) + schema_texts(second),
        schema_texts(Seq::empty()) == Seq::<Seq<char>>::empty(),
    decreases second.len(),
{
    let all = first + seq![row] + second;
    let middle = if row.values@.len() > 0 && (row.values@[0].value matches Some(
        ValueKind::TextValue(_),
    )) {
        seq![row.values@[0].value->0->TextValue_0@ + ";\n"@]
    } else {
        Seq::<Seq<char>>::empty()
    };
    if second.len() == 0 {
        assert(all.drop_last() =~= first);
        assert(all.last() == row);
        assert(schema_texts(all) =~= schema_texts(first) + middle + schema_texts(second));
    } else {
        assert(all.drop_last() =~= first + seq![row] + second.drop_last());
        assert(all.last() == second.last());
        law_schemas_come_in_order(first, row, second.drop_last());
        assert(schema_texts(all) =~= schema_texts(first) + middle + schema_texts(second));
    }
}

/// The formats are shown by their names.
pub proof fn law_formats_are_shown_by_name()
    ensures
        OutputFormat::Table.label() == "Table"@,
        OutputFormat::Json.label() == "Json"@,
        OutputFormat::Csv.label() == "Csv"@,
        OutputFormat::Tsv.label() == "Tsv"@,
        OutputFormat::Raw.label() == "Raw"@,
{
}

/// What came of a command is what it asks for: the schema of a table is asked with
/// its name for a parameter, and that of all tables with none.
pub proof fn law_schema_is_asked_with_the_table(
    outcome: MetaOutcome,
    v: ReplView,
    sql: Seq<char>,
    table: Seq<char>,
)
    requires
        came_of(outcome, v),
    ensures
        v.action == MetaView::ShowSchema(sql, Some(table)) ==> (
        outcome.action matches MetaAction::ShowSchema { sql: s, parameters } && s@ == sql && (
        parameters matches Some(p) && p.named@.len() == 0 && p.positional@.len() == 1 && (
        p.positional@[0].value matches Some(ValueKind::TextValue(t)) && t@ == table))),
        v.action == MetaView::ShowSchema(sql, None) ==> (
        outcome.action matches MetaAction::ShowSchema { sql: s, parameters } && s@ == sql
            && parameters is None),
        v.action is Quit <==> outcome.action is Quit,
        v.action is Nothing <==> outcome.action is Nothing,
        v.action is ShowStatus <==> outcome.action is ShowStatus,
        v.action == MetaView::RunFile(table) ==> (outcome.action matches MetaAction::RunFile(p)
            && p@ == table),
        v.action == MetaView::ShowRows(sql) ==> (outcome.action matches MetaAction::ShowRows {
            sql: s,
        } && s@ == sql),
        v.warning is Some <==> outcome.warning is Some,
        outcome.lines@.len() == v.lines.len(),
{
    assert(text::views(outcome.lines@).len() == outcome.lines@.len());
}

/// The help names every command.
pub proof fn law_help_names_every_command()
    ensures
        help_texts().len() == 9,
        "  .help"@.is_prefix_of(help_texts()[1]),
        "  .tables"@.is_prefix_of(help_texts()[2]),
        "  .schema"@.is_prefix_of(help_texts()[3]),
        "  .database"@.is_prefix_of(help_texts()[4]),
        "  .mode"@.is_prefix_of(help_texts()[5]),
        "  .status"@.is_prefix_of(help_texts()[6]),
        "  .read"@.is_prefix_of(help_texts()[7]),
        "  .quit"@.is_prefix_of(help_texts()[8]),
{
    reveal_strlit("  .help");
    reveal_strlit("  .tables");
    reveal_strlit("  .schema");
    reveal_strlit("  .database");
    reveal_strlit("  .mode");
    reveal_strlit("  .status");
    reveal_strlit("  .read");
    reveal_strlit("  .quit");
    reveal_strlit("  .help                   Show this help menu");
    reveal_strlit("  .tables                 List tables in the current database");
    reveal_strlit("  .schema [TABLE]         Show CREATE statement for table(s)");
    reveal_strlit("  .database [NAME]        Show or change active database");
    reveal_strlit("  .mode [table|json|csv|tsv|raw]  Change output display format");
    reveal_strlit("  .status                 Show cluster leadership & status");
    reveal_strlit("  .read <FILE>            Execute SQL script from file");
    reveal_strlit("  .quit                   Exit REPL");
}

/// A command says what it did: the database and the format that are now in use.
pub proof fn law_commands_say_what_they_did(
    database: Seq<char>,
    format: OutputFormat,
    words: Seq<Seq<char>>,
    lowered: Seq<char>,
)
    requires
        words.len() > 0,
    ensures
        ({
            let v = after_command(database, format, words, lowered);
            &&& (words[0] == ".database"@ || words[0] == ".db"@) && words.len() > 1 ==> v.lines
                == seq!["Switched active database to '"@ + words[1] + "'"@]
            &&& words[0] == ".mode"@ && words.len() > 1 ==> v.lines == seq![
                "Output mode: "@ + v.format.label(),
            ]
            &&& words[0] == ".mode"@ && words.len() == 1 ==> v.lines == seq![
                "Current output mode: "@ + format.label(),
            ] && v.format == format
        }),
{
    lemma_command_names();
    let names = seq![
        ".quit"@,
        ".exit"@,
        ".q"@,
        ".help"@,
        ".h"@,
        ".tables"@,
        ".schema"@,
        ".database"@,
        ".db"@,
        ".mode"@,
        ".status"@,
        ".read"@,
    ];
    assert(names[0] == ".quit"@ && names[1] == ".exit"@ && names[2] == ".q"@ && names[3]
        == ".help"@ && names[4] == ".h"@ && names[5] == ".tables"@ && names[6] == ".schema"@
        && names[7] == ".database"@ && names[8] == ".db"@ && names[9] == ".mode"@ && names[10]
        == ".status"@ && names[11] == ".read"@);
}

} // verus!
