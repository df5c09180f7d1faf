//! SQL texts and parameters as they are typed on the command line.
use vstd::prelude::*;

use crate::error::{Result, SyncError};
use crate::gateway::values;
use crate::gateway::values::SqlView;
use crate::proto::{NamedParameter, Parameters, Statement, Value, ValueKind};
use crate::text;

verus! {

// ---------------------------------------------------------------------------
// Kind of a statement
// ---------------------------------------------------------------------------

/// Whether an SQL text in capitals begins like a query.
pub open spec fn begins_like_query(upper: Seq<char>) -> bool {
    "SELECT"@.is_prefix_of(upper) || "PRAGMA"@.is_prefix_of(upper) || "EXPLAIN"@.is_prefix_of(upper)
        || "WITH"@.is_prefix_of(upper)
}

/// Whether an SQL text in capitals begins like a query.
pub fn is_query_in_capitals(upper: &str) -> (r: bool)
    ensures
        r == begins_like_query(upper@),
{
    text::starts_with(upper, "SELECT") || text::starts_with(upper, "PRAGMA") || text::starts_with(
        upper,
        "EXPLAIN",
    ) || text::starts_with(upper, "WITH")
}

/// Whether an SQL text is a query, and not a write.
pub fn is_query_sql(sql: &str) -> (r: bool)
    ensures
        r == begins_like_query(text::uppercased(text::trimmed(sql@))),
{
    let trimmed: String = text::trim(sql);
    let upper: String = text::to_uppercase(trimmed.as_str());
    is_query_in_capitals(upper.as_str())
}

// ---------------------------------------------------------------------------
// Scripts
// ---------------------------------------------------------------------------

/// Whether a position of a script is inside of quotes, and of which.
#[derive(Debug, Clone, Copy, PartialEq, Eq, Structural)]
pub enum Quoting {
    Outside,
    Single,
    Double,
}

/// The quoting behind a character.
pub open spec fn quoting_behind(q: Quoting, c: char) -> Quoting {
    if c == '\'' && q != Quoting::Double {
        if q == Quoting::Single {
            Quoting::Outside
        } else {
            Quoting::Single
        }
    } else if c == '"' && q != Quoting::Single {
        if q == Quoting::Double {
            Quoting::Outside
        } else {
            Quoting::Double
        }
    } else {
        q
    }
}

/// The quoting at position `i` of a script.
pub open spec fn quoting_at(s: Seq<char>, i: int) -> Quoting
    decreases i,
{
    if i <= 0 {
        Quoting::Outside
    } else {
        quoting_behind(quoting_at(s, i - 1), s[i - 1])
    }
}

/// Whether a statement ends at position `i`: at a semicolon outside of quotes.
pub open spec fn ends_at(s: Seq<char>, i: int) -> bool {
    s[i] == ';' && quoting_at(s, i) == Quoting::Outside
}

/// A piece of a script as a statement: trimmed, and nothing where it is blank.
pub open spec fn kept(piece: Seq<char>) -> Seq<Seq<char>> {
    if text::trimmed(piece).len() > 0 {
        seq![text::trimmed(piece)]
    } else {
        Seq::empty()
    }
}

/// The statements of a script from position `i` on, where the current one begins
/// at `from`.
pub open spec fn statements_from(s: Seq<char>, from: int, i: int) -> Seq<Seq<char>>
    decreases s.len() - i,
{
    if i < 0 || i >= s.len() {
        kept(s.subrange(from, s.len() as int))
    } else if ends_at(s, i) {
        kept(s.subrange(from, i)) + statements_from(s, i + 1, i + 1)
    } else {
        statements_from(s, from, i + 1)
    }
}

/// The statements of a script: the non-blank texts between semicolons outside of
/// quotes.
pub open spec fn script_statements(s: Seq<char>) -> Seq<Seq<char>> {
    statements_from(s, 0, 0)
}

/// The texts of these statements.
pub open spec fn sql_texts(v: Seq<Statement>) -> Seq<Seq<char>> {
    Seq::new(v.len(), |i: int| v[i].sql@)
}

/// Whether these statements have no parameters.
pub open spec fn without_parameters(v: Seq<Statement>) -> bool {
    forall|i: int| 0 <= i < v.len() ==> (#[trigger] v[i]).parameters is None
}

fn keep(out: &mut Vec<Statement>, v: &Vec<char>, from: usize, to: usize)
    requires
        from <= to <= v@.len(),
        without_parameters(old(out)@),
    ensures
        without_parameters(final(out)@),
        sql_texts(final(out)@) == sql_texts(old(out)@) + kept(
            v@.subrange(from as int, to as int),
        ),
{
    let ghost before = out@;
    let piece: String = text::string_of(v, from, to);
    let trimmed: String = text::trim(piece.as_str());
    if !trimmed.as_str().is_empty() {
        out.push(Statement { sql: trimmed, parameters: None });
        assert(sql_texts(out@) =~= sql_texts(before) + seq![trimmed@]);
    } else {
        assert(sql_texts(out@) + Seq::<Seq<char>>::empty() =~= sql_texts(before));
    }
}

/// The statements of a script.
pub fn split_sql_statements(sql: &str) -> (r: Vec<Statement>)
    ensures
        sql_texts(r@) == script_statements(sql@),
        without_parameters(r@),
{
    let v: Vec<char> = text::chars_of(sql);
    let n: usize = v.len();
    let mut out: Vec<Statement> = Vec::new();
    let mut quoting: Quoting = Quoting::Outside;
    let mut from: usize = 0;
    let mut i: usize = 0;
    assert(sql_texts(out@) + statements_from(v@, 0, 0) =~= script_statements(v@));
    while i < n
        invariant
            n == v@.len(),
            from <= i <= n,
            quoting == quoting_at(v@, i as int),
            without_parameters(out@),
            sql_texts(out@) + statements_from(v@, from as int, i as int) == script_statements(v@),
        decreases n - i,
    {
        let c: char = v[i];
        if c == ';' && quoting == Quoting::Outside {
            let ghost before = sql_texts(out@);
            let ghost piece = v@.subrange(from as int, i as int);
            keep(&mut out, &v, from, i);
            from = i + 1;
            assert(before + (kept(piece) + statements_from(v@, i + 1, i + 1)) =~= sql_texts(out@)
                + statements_from(v@, i + 1, i + 1));
        } else if c == '\'' && quoting != Quoting::Double {
            quoting = if quoting == Quoting::Single {
                Quoting::Outside
            } else {
                Quoting::Single
            };
        } else if c == '"' && quoting != Quoting::Single {
            quoting = if quoting == Quoting::Double {
                Quoting::Outside
            } else {
                Quoting::Double
            };
        }
        i = i + 1;
    }
    keep(&mut out, &v, from, n);
    out
}

/// A trimmed statement without quotes and semicolons.
pub open spec fn is_plain_statement(s: Seq<char>) -> bool {
    &&& s.len() > 0
    &&& text::trimmed(s) == s
    &&& forall|i: int|
        0 <= i < s.len() ==> #[trigger] s[i] != ';' && s[i] != '\'' && s[i] != '"'
}

/// Statements with a semicolon behind each.
pub open spec fn script_of(statements: Seq<Seq<char>>) -> Seq<char>
    decreases statements.len(),
{
    if statements.len() == 0 {
        Seq::empty()
    } else {
        statements[0] + seq![';'] + script_of(statements.skip(1))
    }
}

proof fn lemma_plain_stretch(s: Seq<char>, from: int, len: int)
    requires
        0 <= from,
        0 <= len,
        from + len <= s.len(),
        quoting_at(s, from) == Quoting::Outside,
        forall|i: int|
            from <= i < from + len ==> #[trigger] s[i] != ';' && s[i] != '\'' && s[i] != '"',
    ensures
        quoting_at(s, from + len) == Quoting::Outside,
        statements_from(s, from, from) == statements_from(s, from, from + len),
    decreases len,
{
    if len > 0 {
        lemma_plain_stretch(s, from, len - 1);
        assert(s[from + len - 1] != ';');
    }
}

proof fn lemma_split_script(s: Seq<char>, from: int, statements: Seq<Seq<char>>)
    requires
        0 <= from <= s.len(),
        quoting_at(s, from) == Quoting::Outside,
        s.skip(from) == script_of(statements),
        forall|i: int| 0 <= i < statements.len() ==> is_plain_statement(#[trigger] statements[i]),
    ensures
        statements_from(s, from, from) == statements,
    decreases statements.len(),
{
    if statements.len() == 0 {
        assert(s.skip(from).len() == 0);
        assert(s.subrange(from, s.len() as int) == Seq::<char>::empty());
        assert(kept(Seq::<char>::empty()) == Seq::<Seq<char>>::empty());
    } else {
        let x = statements[0];
        let rest = statements.skip(1);
        let n = x.len() as int;
        let tail = s.skip(from);
        assert(is_plain_statement(x));
        assert(tail == x + seq![';'] + script_of(rest));
        assert forall|i: int| from <= i < from + n implies #[trigger] s[i] != ';' && s[i] != '\''
            && s[i] != '"' by {
            assert(s[i] == tail[i - from]);
            assert(tail[i - from] == x[i - from]);
        }
        lemma_plain_stretch(s, from, n);
        assert(s[from + n] == tail[n]);
        assert(tail[n] == ';');
        assert(s.subrange(from, from + n) =~= x) by {
            assert forall|i: int| 0 <= i < n implies s.subrange(from, from + n)[i] == x[i] by {
                assert(s[from + i] == tail[i]);
                assert(tail[i] == x[i]);
            }
        }
        assert(s.skip(from + n + 1) =~= script_of(rest)) by {
            assert forall|i: int| 0 <= i < script_of(rest).len() implies s.skip(from + n + 1)[i]
                == script_of(rest)[i] by {
                assert(s[from + n + 1 + i] == tail[n + 1 + i]);
            }
        }
        assert(quoting_at(s, from + n + 1) == Quoting::Outside);
        assert forall|i: int| 0 <= i < rest.len() implies is_plain_statement(
            #[trigger] rest[i],
        ) by {
            assert(rest[i] == statements[i + 1]);
        }
        lemma_split_script(s, from + n + 1, rest);
        assert(seq![x] + rest =~= statements);
    }
}

/// A script of plain statements is split into just these statements.
pub proof fn law_script_is_split_into_its_statements(statements: Seq<Seq<char>>)
    requires
        forall|i: int| 0 <= i < statements.len() ==> is_plain_statement(#[trigger] statements[i]),
    ensures
        script_statements(script_of(statements)) == statements,
{
    let s = script_of(statements);
    assert(s.skip(0) == s);
    lemma_split_script(s, 0, statements);
}

/// A semicolon within quotes ends no statement: a script whose last quote is
/// still open at a position has no statement end there.
pub proof fn law_quoted_semicolon_ends_nothing(s: Seq<char>, i: int)
    requires
        quoting_at(s, i) != Quoting::Outside,
    ensures
        !ends_at(s, i),
{
}

// ---------------------------------------------------------------------------
// Parameters
// ---------------------------------------------------------------------------

/// The value of a hexadecimal digit.
pub open spec fn hex_value(c: char) -> u8 {
    if '0' <= c && c <= '9' {
        (c as u8 - 48) as u8
    } else if 'a' <= c && c <= 'f' {
        (c as u8 - 87) as u8
    } else {
        (c as u8 - 55) as u8
    }
}

/// The lower-case hexadecimal digit of a value below 16.
pub open spec fn hex_char(n: u8) -> char {
    if n < 10 {
        ((n + 48) as u8) as char
    } else {
        ((n + 87) as u8) as char
    }
}

/// Bytes as hexadecimal digits, two for each byte.
pub open spec fn hex_text(data: Seq<u8>) -> Seq<char> {
    Seq::new(
        2 * data.len(),
        |i: int|
            hex_char(
                if i % 2 == 0 {
                    data[i / 2] / 16
                } else {
                    data[i / 2] % 16
                },
            ),
    )
}

/// Hexadecimal digits as bytes, two for each byte.
pub open spec fn hex_bytes(s: Seq<char>) -> Seq<u8> {
    Seq::new(
        s.len() / 2,
        |i: int| (16 * hex_value(s[2 * i]) + hex_value(s[2 * i + 1])) as u8,
    )
}

/// Whether all characters are hexadecimal digits.
pub open spec fn all_hex(s: Seq<char>) -> bool {
    forall|i: int| 0 <= i < s.len() ==> text::is_hex_digit(#[trigger] s[i])
}

fn hex_digit_of(n: u8) -> (r: char)
    requires
        n < 16,
    ensures
        r == hex_char(n),
{
    if n < 10 {
        (n + 48) as char
    } else {
        (n + 87) as char
    }
}

/// Bytes as hexadecimal digits.
pub fn hex_encode(data: &[u8]) -> (r: String)
    ensures
        r@ == hex_text(data@),
{
    let mut out: String = String::new();
    let mut i: usize = 0;
    assert(out@ == hex_text(data@.take(0)));
    while i < data.len()
        invariant
            i <= data@.len(),
            out@ == hex_text(data@.take(i as int)),
        decreases data@.len() - i,
    {
        let b: u8 = data[i];
        out.push(hex_digit_of(b / 16));
        out.push(hex_digit_of(b % 16));
        assert(hex_text(data@.take(i + 1)) =~= hex_text(data@.take(i as int)).push(
            hex_char(b / 16),
        ).push(hex_char(b % 16)));
        i = i + 1;
    }
    assert(data@.take(i as int) == data@);
    out
}

fn hex_value_of(c: char) -> (r: u8)
    requires
        text::is_hex_digit(c),
    ensures
        r == hex_value(c),
        r < 16,
{
    if '0' <= c && c <= '9' {
        c as u8 - 48
    } else if 'a' <= c && c <= 'f' {
        c as u8 - 87
    } else {
        c as u8 - 55
    }
}

/// The digits of a blob literal `x'..'`.
pub open spec fn blob_digits(s: Seq<char>) -> Option<Seq<char>> {
    if s.len() >= 3 && s[0] == 'x' && s[1] == '\'' && s.last() == '\'' {
        Some(s.subrange(2, s.len() - 1))
    } else {
        None
    }
}

/// What a value on the command line stands for. The bits of the number are those
/// of the text as a floating-point number, where it is one.
pub open spec fn typed_value(s: Seq<char>, float_bits: Option<u64>) -> core::result::Result<
    TypedView,
    Seq<char>,
> {
    if text::same_ignoring_case(s, "null"@) {
        Ok(TypedView::Null)
    } else if text::signed_number(s) is Some {
        Ok(TypedView::Integer(text::signed_number(s)->0))
    } else if float_bits is Some {
        Ok(TypedView::Float(float_bits->0))
    } else {
        match blob_digits(s) {
            Some(hex) => if !all_hex(hex) {
                Err("invalid hex blob literal '"@ + s + "': contains non-hex characters"@)
            } else if hex.len() % 2 != 0 {
                Err("invalid hex blob literal '"@ + s + "': odd number of hex digits"@)
            } else {
                Ok(TypedView::Blob(hex_bytes(hex)))
            },
            None => Ok(TypedView::Text(s)),
        }
    }
}

/// A value on the command line, as plain data.
#[verifier::ext_equal]
pub enum TypedView {
    Null,
    Integer(int),
    Float(u64),
    Text(Seq<char>),
    Blob(Seq<u8>),
}

/// Whether a value of a message is this value.
pub open spec fn is_value(value: Value, v: TypedView) -> bool {
    match v {
        TypedView::Null => value.value == Some(ValueKind::NullValue(true)),
        TypedView::Integer(i) => value.value matches Some(ValueKind::IntValue(n)) && n == i,
        TypedView::Float(bits) => value.value == Some(ValueKind::FloatValue(bits)),
        TypedView::Text(t) => value.value matches Some(ValueKind::TextValue(s)) && s@ == t,
        TypedView::Blob(b) => value.value matches Some(ValueKind::BlobValue(d)) && d@ == b,
    }
}

fn blob_error(s: &str, problem: &str) -> (r: SyncError)
    ensures
        r.is_protocol("invalid hex blob literal '"@ + s@ + problem@),
{
    let mut m: String = "invalid hex blob literal '".to_owned();
    m.append(s);
    m.append(problem);
    SyncError::Protocol(m)
}

fn parse_blob(s: &str, v: &Vec<char>) -> (r: Result<Vec<u8>>)
    requires
        v@ == s@,
        blob_digits(s@) is Some,
    ensures
        ({
            let hex = blob_digits(s@)->0;
            match r {
                Ok(bytes) => all_hex(hex) && hex.len() % 2 == 0 && bytes@ == hex_bytes(hex),
                Err(e) => if !all_hex(hex) {
                    e.is_protocol(
                        "invalid hex blob literal '"@ + s@ + "': contains non-hex characters"@,
                    )
                } else {
                    hex.len() % 2 != 0 && e.is_protocol(
                        "invalid hex blob literal '"@ + s@ + "': odd number of hex digits"@,
                    )
                },
            }
        }),
{
    let ghost hex = blob_digits(s@)->0;
    let end: usize = v.len() - 1;
    let mut i: usize = 2;
    while i < end
        invariant
            2 <= i <= end,
            end == v@.len() - 1,
            v@ == s@,
            hex == s@.subrange(2, end as int),
            blob_digits(s@) == Some(hex),
            forall|j: int| 0 <= j < i - 2 ==> text::is_hex_digit(#[trigger] hex[j]),
        decreases end - i,
    {
        if !text::hex_digit(v[i]) {
            assert(!text::is_hex_digit(hex[i - 2]));
            assert(!all_hex(hex));
            return Err(blob_error(s, "': contains non-hex characters"));
        }
        i = i + 1;
    }
    if (end - 2) % 2 != 0 {
        return Err(blob_error(s, "': odd number of hex digits"));
    }
    let mut bytes: Vec<u8> = Vec::new();
    let mut k: usize = 2;
    while k < end
        invariant
            2 <= k <= end,
            end == v@.len() - 1,
            (end - 2) % 2 == 0,
            v@ == s@,
            hex == s@.subrange(2, end as int),
            all_hex(hex),
            k == 2 + 2 * bytes@.len(),
            forall|j: int|
                0 <= j < bytes@.len() ==> #[trigger] bytes@[j] == (16 * hex_value(hex[2 * j])
                    + hex_value(hex[2 * j + 1])) as u8,
        decreases end - k,
    {
        assert(hex[k - 2] == v@[k as int]);
        assert(hex[k - 1] == v@[k + 1]);
        let high: u8 = hex_value_of(v[k]);
        let low: u8 = hex_value_of(v[k + 1]);
        bytes.push(16 * high + low);
        k = k + 2;
    }
    assert(bytes@ =~= hex_bytes(hex));
    Ok(bytes)
}

/// The value that a text on the command line stands for. The bits are those of
/// the text as a floating-point number, where it is one.
pub fn parse_string_to_value(s: &str, float_bits: Option<u64>) -> (r: Result<Value>)
    ensures
        match r {
            Ok(value) => typed_value(s@, float_bits) matches Ok(v) && is_value(value, v),
            Err(e) => typed_value(s@, float_bits) matches Err(m) && e.is_protocol(m),
        },
{
    if text::eq_ignore_ascii_case(s, "null") {
        return Ok(Value { value: Some(ValueKind::NullValue(true)) });
    }
    match text::parse_i64(s) {
        Some(i) => {
            return Ok(Value { value: Some(ValueKind::IntValue(i)) });
        },
        None => {},
    }
    match float_bits {
        Some(bits) => {
            return Ok(Value { value: Some(ValueKind::FloatValue(bits)) });
        },
        None => {},
    }
    let v: Vec<char> = text::chars_of(s);
    let n: usize = v.len();
    if n >= 3 && v[0] == 'x' && v[1] == '\'' && v[n - 1] == '\'' {
        match parse_blob(s, &v) {
            Ok(bytes) => Ok(Value { value: Some(ValueKind::BlobValue(bytes)) }),
            Err(e) => Err(e),
        }
    } else {
        Ok(Value { value: Some(ValueKind::TextValue(s.to_owned())) })
    }
}

proof fn lemma_hex_char(n: u8)
    requires
        n < 16,
    ensures
        text::is_hex_digit(hex_char(n)),
        hex_value(hex_char(n)) == n,
{
}

/// A blob literal of the hexadecimal digits of some bytes stands for these
/// bytes.
pub proof fn law_blob_literal_round_trip(data: Seq<u8>)
    ensures
        typed_value("x'"@ + hex_text(data) + "'"@, None) == Ok::<TypedView, Seq<char>>(
            TypedView::Blob(data),
        ),
{
    reveal_strlit("x'");
    reveal_strlit("'");
    reveal_strlit("null");
    let s = "x'"@ + hex_text(data) + "'"@;
    let hex = hex_text(data);
    assert(s[0] == 'x');
    assert(s[1] == '\'');
    assert(s.last() == '\'');
    assert(s.subrange(2, s.len() - 1) =~= hex);
    assert(!text::same_ignoring_case(s, "null"@)) by {
        assert(text::ascii_lower(s[0]) == 'x');
        assert(text::ascii_lower("null"@[0]) == 'n');
    }
    assert(text::signed_number(s) is None) by {
        assert(s[0] != '-' && s[0] != '+');
        assert(!text::is_digit(s[0]));
        assert(text::without_plus(s) == s);
    }
    assert forall|i: int| 0 <= i < hex.len() implies text::is_hex_digit(#[trigger] hex[i]) by {
        lemma_hex_char(data[i / 2] / 16);
        lemma_hex_char(data[i / 2] % 16);
    }
    assert(hex_bytes(hex) =~= data) by {
        assert forall|i: int| 0 <= i < data.len() implies hex_bytes(hex)[i] == data[i] by {
            let b = data[i];
            lemma_hex_char(b / 16);
            lemma_hex_char(b % 16);
            assert((2 * i) / 2 == i && (2 * i) % 2 == 0);
            assert((2 * i + 1) / 2 == i && (2 * i + 1) % 2 == 1);
            assert(hex[2 * i] == hex_char(b / 16));
            assert(hex[2 * i + 1] == hex_char(b % 16));
            assert(16 * (b / 16) + b % 16 == b);
        }
    }
}

/// The text of the value of a parameter: what is behind the first `=`, or else
/// all of it; trimmed.
pub open spec fn value_text(p: Seq<char>) -> Seq<char> {
    match text::split_once_at(p, '=') {
        Some((k, v)) => text::trimmed(v),
        None => text::trimmed(p),
    }
}

/// The text of the value of a parameter.
pub fn parameter_value_text(p: &str) -> (r: String)
    ensures
        r@ == value_text(p@),
{
    match text::split_once(p, '=') {
        Some((_, v)) => text::trim(v.as_str()),
        None => text::trim(p),
    }
}

/// Whether these are the parameters that stand for the first `n` of these texts.
pub open spec fn stand_for(
    positional: Seq<Value>,
    named: Seq<NamedParameter>,
    raw: Seq<String>,
    floats: Seq<Option<u64>>,
    n: int,
) -> bool
    decreases n,
{
    if n <= 0 {
        positional.len() == 0 && named.len() == 0
    } else {
        let p = raw[n - 1]@;
        let v = typed_value(value_text(p), floats[n - 1]);
        match text::split_once_at(p, '=') {
            Some((k, _)) => {
                &&& named.len() > 0
                &&& named.last().name@ == text::trimmed(k)
                &&& named.last().value matches Some(value)
                &&& v matches Ok(t)
                &&& is_value(value, t)
                &&& stand_for(positional, named.drop_last(), raw, floats, n - 1)
            },
            None => {
                &&& positional.len() > 0
                &&& v matches Ok(t)
                &&& is_value(positional.last(), t)
                &&& stand_for(positional.drop_last(), named, raw, floats, n - 1)
            },
        }
    }
}

/// What is wrong with the parameters from index `i` on: the first error.
pub open spec fn parameters_error(raw: Seq<String>, floats: Seq<Option<u64>>, i: int) -> Option<
    Seq<char>,
>
    decreases raw.len() - i,
{
    if i < 0 || i >= raw.len() {
        None
    } else {
        match typed_value(value_text(raw[i]@), floats[i]) {
            Err(m) => Some(m),
            Ok(_) => parameters_error(raw, floats, i + 1),
        }
    }
}

/// The parameters of a statement from the command line: those with a `=` by
/// name, the others by position. `floats` gives for each one the bits of its
/// value text as a floating-point number, where it is one.
pub fn parse_cli_parameters(raw_params: &Vec<String>, floats: &Vec<Option<u64>>) -> (r: Result<
    Option<Parameters>,
>)
    requires
        floats@.len() == raw_params@.len(),
    ensures
        match r {
            Ok(None) => raw_params@.len() == 0,
            Ok(Some(p)) => raw_params@.len() > 0 && stand_for(
                p.positional@,
                p.named@,
                raw_params@,
                floats@,
                raw_params@.len() as int,
            ),
            Err(e) => parameters_error(raw_params@, floats@, 0) matches Some(m) && e.is_protocol(m),
        },
        r is Err <==> parameters_error(raw_params@, floats@, 0) is Some,
{
    if raw_params.len() == 0 {
        return Ok(None);
    }
    let mut positional: Vec<Value> = Vec::new();
    let mut named: Vec<NamedParameter> = Vec::new();
    let mut i: usize = 0;
    while i < raw_params.len()
        invariant
            i <= raw_params@.len(),
            floats@.len() == raw_params@.len(),
            stand_for(positional@, named@, raw_params@, floats@, i as int),
            parameters_error(raw_params@, floats@, 0) == parameters_error(
                raw_params@,
                floats@,
                i as int,
            ),
        decreases raw_params@.len() - i,
    {
        let p: &str = raw_params[i].as_str();
        let ghost before_positional = positional@;
        let ghost before_named = named@;
        match text::split_once(p, '=') {
            Some((k, v)) => {
                let value: Value = match parse_string_to_value(
                    text::trim(v.as_str()).as_str(),
                    floats[i],
                ) {
                    Ok(value) => value,
                    Err(e) => {
                        return Err(e);
                    },
                };
                named.push(NamedParameter { name: text::trim(k.as_str()), value: Some(value) });
                assert(named@.drop_last() == before_named);
            },
            None => {
                let value: Value = match parse_string_to_value(text::trim(p).as_str(), floats[i]) {
                    Ok(value) => value,
                    Err(e) => {
                        return Err(e);
                    },
                };
                positional.push(value);
                assert(positional@.drop_last() == before_positional);
            },
        }
        i = i + 1;
    }
    Ok(Some(Parameters { positional, named }))
}

// ---------------------------------------------------------------------------
// What scripts and parameters stand for
// ---------------------------------------------------------------------------

/// A part of a statement: text outside of quotes, or what stands between two single
/// or two double quotes.
pub enum SqlPart {
    Plain(Seq<char>),
    Single(Seq<char>),
    Double(Seq<char>),
}

impl SqlPart {
    /// Plain text holds neither quotes nor semicolons; what stands between quotes
    /// holds anything but these quotes.
    pub open spec fn is_sound(self) -> bool {
        match self {
            SqlPart::Plain(t) => !t.contains(';') && !t.contains('\'') && !t.contains('"'),
            SqlPart::Single(t) => !t.contains('\''),
            SqlPart::Double(t) => !t.contains('"'),
        }
    }

    /// The part with its quotes.
    pub open spec fn text(self) -> Seq<char> {
        match self {
            SqlPart::Plain(t) => t,
            SqlPart::Single(t) => seq!['\''] + t + seq!['\''],
            SqlPart::Double(t) => seq!['"'] + t + seq!['"'],
        }
    }
}

/// The text of parts one after the other.
pub open spec fn parts_text(parts: Seq<SqlPart>) -> Seq<char>
    decreases parts.len(),
{
    if parts.len() == 0 {
        Seq::empty()
    } else {
        parts[0].text() + parts_text(parts.skip(1))
    }
}

/// A statement as it stands in a script, with white space around it.
pub struct ScriptPiece {
    pub before: Seq<char>,
    pub parts: Seq<SqlPart>,
    pub after: Seq<char>,
}

impl ScriptPiece {
    /// The statement without the white space around it.
    pub open spec fn statement(self) -> Seq<char> {
        parts_text(self.parts)
    }

    /// The statement with the white space around it.
    pub open spec fn text(self) -> Seq<char> {
        self.before + self.statement() + self.after
    }

    /// White space around a statement of sound parts, which itself neither starts nor
    /// ends with white space.
    pub open spec fn is_sound(self) -> bool {
        &&& text::all_spaces(self.before)
        &&& text::all_spaces(self.after)
        &&& forall|k: int| 0 <= k < self.parts.len() ==> (#[trigger] self.parts[k]).is_sound()
        &&& self.statement().len() > 0 ==> !text::is_space(self.statement()[0]) && !text::is_space(
            self.statement().last(),
        )
    }
}

/// The texts of the pieces of a script.
pub open spec fn piece_texts(all: Seq<ScriptPiece>) -> Seq<Seq<char>> {
    Seq::new(all.len(), |k: int| all[k].text())
}

/// The statements of these pieces, without the empty ones.
pub open spec fn statements_of(all: Seq<ScriptPiece>) -> Seq<Seq<char>>
    decreases all.len(),
{
    if all.len() == 0 {
        Seq::empty()
    } else if all[0].statement().len() == 0 {
        statements_of(all.skip(1))
    } else {
        seq![all[0].statement()] + statements_of(all.skip(1))
    }
}

proof fn lemma_stretch(s: Seq<char>, from: int, i: int, n: int, q: Quoting)
    requires
        0 <= i,
        0 <= n,
        i + n <= s.len(),
        quoting_at(s, i) == q,
        forall|j: int|
            i <= j < i + n ==> match q {
                Quoting::Outside => (#[trigger] s[j]) != ';' && s[j] != '\'' && s[j] != '"',
                Quoting::Single => s[j] != '\'',
                Quoting::Double => s[j] != '"',
            },
    ensures
        quoting_at(s, i + n) == q,
        statements_from(s, from, i) == statements_from(s, from, i + n),
    decreases n,
{
    if n > 0 {
        lemma_stretch(s, from, i, n - 1, q);
        let c = s[i + n - 1];
        assert(quoting_behind(q, c) == q);
    }
}

proof fn lemma_quoted_stretch(s: Seq<char>, from: int, i: int, t: Seq<char>, single: bool)
    requires
        0 <= i,
        quoting_at(s, i) == Quoting::Outside,
        i + t.len() + 2 <= s.len(),
        s[i] == if single { '\'' } else { '"' },
        s[i + t.len() + 1] == s[i],
        s.subrange(i + 1, i + 1 + t.len()) == t,
        !t.contains(s[i]),
    ensures
        quoting_at(s, i + t.len() + 2) == Quoting::Outside,
        statements_from(s, from, i) == statements_from(s, from, i + t.len() + 2),
{
    let q = if single { Quoting::Single } else { Quoting::Double };
    let n = t.len() as int;
    assert(quoting_at(s, i + 1) == q);
    assert(statements_from(s, from, i) == statements_from(s, from, i + 1));
    assert forall|j: int| i + 1 <= j < i + 1 + n implies (#[trigger] s[j]) != s[i] by {
        assert(s.subrange(i + 1, i + 1 + n)[j - i - 1] == s[j]);
        assert(t[j - i - 1] == s[j]);
    }
    lemma_stretch(s, from, i + 1, n, q);
    assert(quoting_at(s, i + n + 2) == Quoting::Outside);
    assert(!ends_at(s, i + n + 1));
    assert(statements_from(s, from, i + n + 1) == statements_from(s, from, i + n + 2));
}

proof fn lemma_part(s: Seq<char>, from: int, i: int, part: SqlPart)
    requires
        0 <= i,
        i + part.text().len() <= s.len(),
        quoting_at(s, i) == Quoting::Outside,
        part.is_sound(),
        s.subrange(i, i + part.text().len()) == part.text(),
    ensures
        quoting_at(s, i + part.text().len()) == Quoting::Outside,
        statements_from(s, from, i) == statements_from(s, from, i + part.text().len()),
{
    let n = part.text().len() as int;
    let sub = s.subrange(i, i + n);
    match part {
        SqlPart::Plain(t) => {
            assert forall|j: int| i <= j < i + n implies (#[trigger] s[j]) != ';' && s[j] != '\''
                && s[j] != '"' by {
                assert(sub[j - i] == s[j]);
                assert(t[j - i] == s[j]);
            }
            lemma_stretch(s, from, i, n, Quoting::Outside);
        },
        SqlPart::Single(t) => {
            assert(sub[0] == s[i] && sub[n - 1] == s[i + n - 1]);
            assert(s.subrange(i + 1, i + 1 + t.len()) =~= sub.subrange(1, n - 1));
            assert(sub.subrange(1, n - 1) =~= t);
            lemma_quoted_stretch(s, from, i, t, true);
        },
        SqlPart::Double(t) => {
            assert(sub[0] == s[i] && sub[n - 1] == s[i + n - 1]);
            assert(s.subrange(i + 1, i + 1 + t.len()) =~= sub.subrange(1, n - 1));
            assert(sub.subrange(1, n - 1) =~= t);
            lemma_quoted_stretch(s, from, i, t, false);
        },
    }
}

proof fn lemma_parts(s: Seq<char>, from: int, i: int, parts: Seq<SqlPart>)
    requires
        0 <= i,
        i + parts_text(parts).len() <= s.len(),
        quoting_at(s, i) == Quoting::Outside,
        forall|k: int| 0 <= k < parts.len() ==> (#[trigger] parts[k]).is_sound(),
        s.subrange(i, i + parts_text(parts).len()) == parts_text(parts),
    ensures
        quoting_at(s, i + parts_text(parts).len()) == Quoting::Outside,
        statements_from(s, from, i) == statements_from(s, from, i + parts_text(parts).len()),
    decreases parts.len(),
{
    if parts.len() > 0 {
        let all = parts_text(parts);
        let head = parts[0].text();
        let n = head.len() as int;
        let rest = parts.skip(1);
        assert(s.subrange(i, i + n) =~= s.subrange(i, i + all.len()).take(n));
        assert(all.take(n) =~= head);
        lemma_part(s, from, i, parts[0]);
        assert(s.subrange(i + n, i + all.len()) =~= s.subrange(i, i + all.len()).skip(n));
        assert(all.skip(n) =~= parts_text(rest));
        assert forall|k: int| 0 <= k < rest.len() implies (#[trigger] rest[k]).is_sound() by {
            assert(rest[k] == parts[k + 1]);
        }
        lemma_parts(s, from, i + n, rest);
    }
}

proof fn lemma_piece(s: Seq<char>, from: int, piece: ScriptPiece)
    requires
        0 <= from,
        from + piece.text().len() <= s.len(),
        quoting_at(s, from) == Quoting::Outside,
        piece.is_sound(),
        s.subrange(from, from + piece.text().len()) == piece.text(),
    ensures
        quoting_at(s, from + piece.text().len()) == Quoting::Outside,
        statements_from(s, from, from) == statements_from(s, from, from + piece.text().len()),
        kept(piece.text()) == if piece.statement().len() > 0 {
            seq![piece.statement()]
        } else {
            Seq::empty()
        },
{
    let n = piece.text().len() as int;
    let a = piece.before.len() as int;
    let b = a + piece.statement().len();
    let sub = s.subrange(from, from + n);
    assert forall|j: int| from <= j < from + a implies (#[trigger] s[j]) != ';' && s[j] != '\''
        && s[j] != '"' by {
        assert(sub[j - from] == s[j]);
        assert(piece.text()[j - from] == piece.before[j - from]);
        assert(text::is_space(piece.before[j - from]));
    }
    lemma_stretch(s, from, from, a, Quoting::Outside);
    assert(s.subrange(from + a, from + b) =~= sub.subrange(a, b));
    assert(piece.text().subrange(a, b) =~= piece.statement());
    lemma_parts(s, from, from + a, piece.parts);
    assert forall|j: int| from + b <= j < from + n implies (#[trigger] s[j]) != ';' && s[j] != '\''
        && s[j] != '"' by {
        assert(sub[j - from] == s[j]);
        assert(piece.text()[j - from] == piece.after[j - from - b]);
        assert(text::is_space(piece.after[j - from - b]));
    }
    lemma_stretch(s, from, from + b, n - b, Quoting::Outside);
    text::law_trimming_takes_the_surrounding_space(piece.before, piece.statement(), piece.after);
}

proof fn lemma_piece_and_semicolon(s: Seq<char>, from: int, piece: ScriptPiece, rest: Seq<char>)
    requires
        0 <= from <= s.len(),
        quoting_at(s, from) == Quoting::Outside,
        piece.is_sound(),
        s.skip(from) == piece.text() + seq![';'] + rest,
    ensures
        ({
            let next = from + piece.text().len() + 1;
            &&& next <= s.len()
            &&& quoting_at(s, next) == Quoting::Outside
            &&& s.skip(next) == rest
            &&& statements_from(s, from, from) == if piece.statement().len() > 0 {
                seq![piece.statement()] + statements_from(s, next, next)
            } else {
                statements_from(s, next, next)
            }
        }),
{
    let n = piece.text().len() as int;
    let tail = s.skip(from);
    assert(tail.len() == n + 1 + rest.len());
    assert(s.subrange(from, from + n) =~= tail.take(n));
    assert(tail.take(n) =~= piece.text());
    lemma_piece(s, from, piece);
    assert(tail[n] == ';' && s[from + n] == tail[n]);
    assert(ends_at(s, from + n));
    assert(s.skip(from + n + 1) =~= tail.skip(n + 1));
    assert(tail.skip(n + 1) =~= rest);
    assert(quoting_at(s, from + n + 1) == Quoting::Outside);
    assert(Seq::<Seq<char>>::empty() + statements_from(s, from + n + 1, from + n + 1)
        =~= statements_from(s, from + n + 1, from + n + 1));
}

proof fn lemma_script(s: Seq<char>, from: int, all: Seq<ScriptPiece>)
    requires
        0 <= from <= s.len(),
        quoting_at(s, from) == Quoting::Outside,
        all.len() > 0,
        forall|k: int| 0 <= k < all.len() ==> (#[trigger] all[k]).is_sound(),
        s.skip(from) == text::joined_with(piece_texts(all), ';'),
    ensures
        statements_from(s, from, from) == statements_of(all),
    decreases all.len(),
{
    let texts = piece_texts(all);
    let piece = all[0];
    let n = piece.text().len() as int;
    reveal_with_fuel(statements_of, 2);
    if all.len() == 1 {
        assert(s.skip(from) == piece.text());
        assert(s.subrange(from, from + n) =~= s.skip(from));
        assert(s.subrange(from, s.len() as int) =~= s.skip(from));
        lemma_piece(s, from, piece);
        assert(statements_of(all.skip(1)) =~= Seq::empty());
        assert(statements_of(all) =~= kept(piece.text()));
    } else {
        let rest = all.skip(1);
        assert(texts.skip(1) =~= piece_texts(rest));
        assert forall|k: int| 0 <= k < rest.len() implies (#[trigger] rest[k]).is_sound() by {
            assert(rest[k] == all[k + 1]);
        }
        lemma_piece_and_semicolon(s, from, piece, text::joined_with(piece_texts(rest), ';'));
        lemma_script(s, from + n + 1, rest);
    }
}

/// Statements joined by semicolons are split into just these statements, trimmed and
/// without the empty ones, also where they hold complete literals with anything in
/// them, at their ends as well.
pub proof fn law_joined_statements_are_split_again(all: Seq<ScriptPiece>)
    requires
        all.len() > 0,
        forall|k: int| 0 <= k < all.len() ==> (#[trigger] all[k]).is_sound(),
    ensures
        script_statements(text::joined_with(piece_texts(all), ';')) == statements_of(all),
{
    let s = text::joined_with(piece_texts(all), ';');
    assert(s.skip(0) =~= s);
    lemma_script(s, 0, all);
}

/// A statement ends at a semicolon behind complete parts, and the next one starts
/// behind it, whatever follows.
pub proof fn law_semicolon_ends_a_statement(piece: ScriptPiece, rest: Seq<char>)
    requires
        piece.is_sound(),
    ensures
        ({
            let s = piece.text() + seq![';'] + rest;
            script_statements(s) == if piece.statement().len() > 0 {
                seq![piece.statement()] + script_statements(rest)
            } else {
                script_statements(rest)
            }
        }),
{
    let s = piece.text() + seq![';'] + rest;
    assert(s.skip(0) =~= s);
    lemma_piece_and_semicolon(s, 0, piece, rest);
    lemma_shifted(s, rest, piece.text().len() as int + 1, 0, 0);
}

proof fn lemma_shifted_quoting(s: Seq<char>, rest: Seq<char>, n: int, i: int)
    requires
        0 <= n <= s.len(),
        0 <= i <= rest.len(),
        s.skip(n) == rest,
        quoting_at(s, n) == Quoting::Outside,
    ensures
        quoting_at(s, n + i) == quoting_at(rest, i),
    decreases i,
{
    if i > 0 {
        lemma_shifted_quoting(s, rest, n, i - 1);
        assert(s[n + i - 1] == s.skip(n)[i - 1]);
    }
}

proof fn lemma_shifted(s: Seq<char>, rest: Seq<char>, n: int, from: int, i: int)
    requires
        0 <= n <= s.len(),
        0 <= from <= i <= rest.len(),
        s.skip(n) == rest,
        quoting_at(s, n) == Quoting::Outside,
    ensures
        statements_from(s, n + from, n + i) == statements_from(rest, from, i),
    decreases rest.len() - i,
{
    lemma_shifted_quoting(s, rest, n, i);
    if i >= rest.len() {
        assert(s.subrange(n + from, s.len() as int) =~= rest.subrange(from, rest.len() as int));
    } else {
        assert(s[n + i] == s.skip(n)[i]);
        if ends_at(rest, i) {
            assert(s.subrange(n + from, n + i) =~= rest.subrange(from, i));
            lemma_shifted(s, rest, n, i + 1, i + 1);
        } else {
            lemma_shifted(s, rest, n, from, i + 1);
        }
    }
}

/// An open quote takes the rest of the script, semicolons and all.
pub proof fn law_open_quote_takes_the_rest(parts: Seq<SqlPart>, quote: char, rest: Seq<char>)
    requires
        quote == '\'' || quote == '"',
        !rest.contains(quote),
        forall|k: int| 0 <= k < parts.len() ==> (#[trigger] parts[k]).is_sound(),
        !text::is_space((parts_text(parts) + seq![quote] + rest)[0]),
        rest.len() > 0 ==> !text::is_space(rest.last()),
    ensures
        script_statements(parts_text(parts) + seq![quote] + rest) == seq![
            parts_text(parts) + seq![quote] + rest,
        ],
{
    let core = parts_text(parts);
    let s = core + seq![quote] + rest;
    let n = core.len() as int;
    let q = if quote == '\'' {
        Quoting::Single
    } else {
        Quoting::Double
    };
    assert(s.subrange(0, n) =~= core);
    lemma_parts(s, 0, 0, parts);
    assert(s[n] == quote);
    assert(quoting_at(s, n + 1) == q);
    assert forall|j: int| n + 1 <= j < s.len() implies (#[trigger] s[j]) != quote by {
        assert(rest[j - n - 1] == s[j]);
    }
    lemma_stretch(s, 0, n + 1, s.len() - n - 1, q);
    assert(s.subrange(0, s.len() as int) =~= s);
    assert(!text::is_space(s.last()));
    text::lemma_trimmed_fixpoint(s);
}

/// Every text that begins with a query's keyword is a query; those that begin with a
/// keyword of a change are not.
pub proof fn law_keywords_tell_queries(rest: Seq<char>)
    ensures
        begins_like_query("SELECT"@ + rest),
        begins_like_query("PRAGMA"@ + rest),
        begins_like_query("EXPLAIN"@ + rest),
        begins_like_query("WITH"@ + rest),
        !begins_like_query("INSERT"@ + rest),
        !begins_like_query("UPDATE"@ + rest),
        !begins_like_query("DELETE"@ + rest),
        !begins_like_query("REPLACE"@ + rest),
        !begins_like_query("CREATE"@ + rest),
        !begins_like_query("DROP"@ + rest),
        !begins_like_query("ALTER"@ + rest),
        !begins_like_query("BEGIN"@ + rest),
        !begins_like_query("COMMIT"@ + rest),
        !begins_like_query("VACUUM"@ + rest),
        !begins_like_query(Seq::empty()),
{
    reveal_strlit("SELECT");
    reveal_strlit("PRAGMA");
    reveal_strlit("EXPLAIN");
    reveal_strlit("WITH");
    reveal_strlit("INSERT");
    reveal_strlit("UPDATE");
    reveal_strlit("DELETE");
    reveal_strlit("REPLACE");
    reveal_strlit("CREATE");
    reveal_strlit("DROP");
    reveal_strlit("ALTER");
    reveal_strlit("BEGIN");
    reveal_strlit("COMMIT");
    reveal_strlit("VACUUM");
    assert("SELECT"@.is_prefix_of("SELECT"@ + rest));
    assert("PRAGMA"@.is_prefix_of("PRAGMA"@ + rest));
    assert("EXPLAIN"@.is_prefix_of("EXPLAIN"@ + rest));
    assert("WITH"@.is_prefix_of("WITH"@ + rest));
    assert forall|s: Seq<char>|
        s.len() > 0 && s[0] != 'S' && s[0] != 'P' && s[0] != 'E' && s[0] != 'W' implies
        !(#[trigger] begins_like_query(s)) by {
        assert("SELECT"@[0] == 'S' && "PRAGMA"@[0] == 'P' && "EXPLAIN"@[0] == 'E' && "WITH"@[0]
            == 'W');
    }
    assert(("INSERT"@ + rest)[0] == 'I');
    assert(("UPDATE"@ + rest)[0] == 'U');
    assert(("DELETE"@ + rest)[0] == 'D');
    assert(("REPLACE"@ + rest)[0] == 'R');
    assert(("CREATE"@ + rest)[0] == 'C');
    assert(("DROP"@ + rest)[0] == 'D');
    assert(("ALTER"@ + rest)[0] == 'A');
    assert(("BEGIN"@ + rest)[0] == 'B');
    assert(("COMMIT"@ + rest)[0] == 'C');
    assert(("VACUUM"@ + rest)[0] == 'V');
}

/// The hexadecimal digits of both cases have the values from 0 to 15, in their order,
/// and the digit of a value is the small one.
pub proof fn law_hex_digits_have_their_values(n: u8)
    requires
        n < 16,
    ensures
        hex_value("0123456789abcdef"@[n as int]) == n,
        hex_value("0123456789ABCDEF"@[n as int]) == n,
        hex_char(n) == "0123456789abcdef"@[n as int],
{
    reveal_strlit("0123456789abcdef");
    reveal_strlit("0123456789ABCDEF");
}

/// A byte is written as the digit of its upper half and then that of its lower half.
pub proof fn law_hex_text_has_two_digits_a_byte(data: Seq<u8>, i: int)
    requires
        0 <= i < data.len(),
    ensures
        hex_text(data).len() == 2 * data.len(),
        hex_text(data)[2 * i] == "0123456789abcdef"@[data[i] as int / 16],
        hex_text(data)[2 * i + 1] == "0123456789abcdef"@[data[i] as int % 16],
{
    law_hex_digits_have_their_values(data[i] / 16);
    law_hex_digits_have_their_values(data[i] % 16);
    assert((2 * i) / 2 == i && (2 * i) % 2 == 0);
    assert((2 * i + 1) / 2 == i && (2 * i + 1) % 2 == 1);
}

/// What a text between `x'` and `'` stands for depends on the digits alone.
proof fn lemma_blob_literal(h: Seq<char>)
    ensures
        blob_digits("x'"@ + h + "'"@) == Some(h),
        !text::same_ignoring_case("x'"@ + h + "'"@, "null"@),
        text::signed_number("x'"@ + h + "'"@) is None,
{
    reveal_strlit("x'");
    reveal_strlit("'");
    reveal_strlit("null");
    let s = "x'"@ + h + "'"@;
    assert(s[0] == 'x' && s[1] == '\'' && s.last() == '\'');
    assert(s.subrange(2, s.len() - 1) =~= h);
    assert(text::ascii_lower(s[0]) == 'x');
    assert(text::ascii_lower("null"@[0]) == 'n');
    text::law_other_texts_are_no_numbers(s, 0);
}

/// A blob literal stands for its bytes in whatever case its digits are written.
pub proof fn law_blob_literal_in_any_case(h: Seq<char>, data: Seq<u8>)
    requires
        text::ascii_lowered(h) == hex_text(data),
    ensures
        typed_value("x'"@ + h + "'"@, None) == Ok::<TypedView, Seq<char>>(TypedView::Blob(data)),
        typed_value("x'"@ + text::ascii_uppered(h) + "'"@, None) == typed_value(
            "x'"@ + h + "'"@,
            None,
        ),
{
    lemma_blob_digits_in_any_case(h, data);
    let up = text::ascii_uppered(h);
    assert(text::ascii_lowered(up) =~= hex_text(data)) by {
        assert forall|i: int| 0 <= i < h.len() implies text::ascii_lowered(up)[i]
            == text::ascii_lowered(h)[i] by {
            let c = h[i];
            assert(text::ascii_lower(text::ascii_upper(c)) == text::ascii_lower(c));
        }
    }
    lemma_blob_digits_in_any_case(up, data);
}

proof fn lemma_blob_digits_in_any_case(h: Seq<char>, data: Seq<u8>)
    requires
        text::ascii_lowered(h) == hex_text(data),
    ensures
        typed_value("x'"@ + h + "'"@, None) == Ok::<TypedView, Seq<char>>(TypedView::Blob(data)),
{
    let low = hex_text(data);
    lemma_blob_literal(h);
    assert(low.len() == h.len());
    assert forall|i: int| 0 <= i < h.len() implies text::is_hex_digit(#[trigger] h[i])
        && hex_value(h[i]) == hex_value(low[i]) by {
        assert(low[i] == text::ascii_lower(h[i]));
        lemma_hex_char(data[i / 2] / 16);
        lemma_hex_char(data[i / 2] % 16);
    }
    assert(hex_bytes(h) =~= data) by {
        assert forall|i: int| 0 <= i < data.len() implies hex_bytes(h)[i] == data[i] by {
            let b = data[i];
            lemma_hex_char(b / 16);
            lemma_hex_char(b % 16);
            assert((2 * i) / 2 == i && (2 * i) % 2 == 0);
            assert((2 * i + 1) / 2 == i && (2 * i + 1) % 2 == 1);
            assert(low[2 * i] == hex_char(b / 16));
            assert(low[2 * i + 1] == hex_char(b % 16));
            assert(hex_value(h[2 * i]) == b / 16);
            assert(hex_value(h[2 * i + 1]) == b % 16);
            assert(16 * (b / 16) + b % 16 == b);
        }
    }
}

/// A blob literal with another character than a digit, or with half a byte, is
/// refused, whatever else it holds.
pub proof fn law_broken_blob_literals_are_refused(h: Seq<char>)
    requires
        h.len() % 2 != 0 || exists|i: int|
            0 <= i < h.len() && !(('0' <= #[trigger] h[i] && h[i] <= '9') || ('a' <= h[i] && h[i]
                <= 'f') || ('A' <= h[i] && h[i] <= 'F')),
    ensures
        typed_value("x'"@ + h + "'"@, None) is Err,
{
    lemma_blob_literal(h);
    if h.len() % 2 == 0 {
        let i = choose|i: int|
            0 <= i < h.len() && !(('0' <= #[trigger] h[i] && h[i] <= '9') || ('a' <= h[i] && h[i]
                <= 'f') || ('A' <= h[i] && h[i] <= 'F'));
        assert(!text::is_hex_digit(h[i]));
    }
}

/// The decimal form of a 64-bit integer stands for that integer.
pub proof fn law_integers_are_typed(n: i64, float_bits: Option<u64>)
    ensures
        typed_value(text::signed_decimal(n as int), float_bits) == Ok::<TypedView, Seq<char>>(
            TypedView::Integer(n as int),
        ),
{
    let s = text::signed_decimal(n as int);
    text::law_signed_number_is_read(n as int);
    reveal_strlit("null");
    if n < 0 {
        assert(s[0] == '-');
    } else {
        text::lemma_decimal_round_trip(n as nat);
        assert(text::is_digit(s[0]));
    }
    assert(text::ascii_lower("null"@[0]) == 'n');
    assert(text::ascii_lower(s[0]) != 'n');
}

/// The word `null`, in any letter case, stands for NULL.
pub proof fn law_null_is_typed(s: Seq<char>, float_bits: Option<u64>)
    requires
        text::ascii_lowered(s) == "null"@,
    ensures
        typed_value(s, float_bits) == Ok::<TypedView, Seq<char>>(TypedView::Null),
{
    reveal_strlit("null");
    let low = text::ascii_lowered(s);
    assert(low.len() == s.len());
    assert forall|i: int| 0 <= i < s.len() implies text::ascii_lower(#[trigger] s[i])
        == text::ascii_lower("null"@[i]) by {
        assert(low[i] == "null"@[i]);
    }
}

/// Everything else that starts with a letter other than `n` and `x` stands for the
/// number that it denotes, and else for itself.
pub proof fn law_words_are_typed_as_text(s: Seq<char>, float_bits: Option<u64>)
    requires
        s.len() > 0,
        ('a' <= s[0] && s[0] <= 'z') || ('A' <= s[0] && s[0] <= 'Z'),
        s[0] != 'n' && s[0] != 'N' && s[0] != 'x',
    ensures
        typed_value(s, float_bits) == Ok::<TypedView, Seq<char>>(
            match float_bits {
                Some(bits) => TypedView::Float(bits),
                None => TypedView::Text(s),
            },
        ),
{
    reveal_strlit("null");
    assert(text::ascii_lower("null"@[0]) == 'n');
    assert(text::ascii_lower(s[0]) != 'n');
    text::law_other_texts_are_no_numbers(s, 0);
}

/// A text with a character that is no digit behind its first one stands for the
/// floating-point number that it denotes, where it denotes one, unless it says NULL.
pub proof fn law_fractions_are_typed(s: Seq<char>, i: int, bits: u64)
    requires
        1 <= i < s.len(),
        !('0' <= s[i] && s[i] <= '9'),
        text::ascii_lowered(s) != "null"@,
    ensures
        typed_value(s, Some(bits)) == Ok::<TypedView, Seq<char>>(TypedView::Float(bits)),
{
    reveal_strlit("null");
    text::law_other_texts_are_no_numbers(s, 0);
    if text::same_ignoring_case(s, "null"@) {
        assert(text::ascii_lowered(s) =~= "null"@);
    }
}

/// The value of a parameter is what stands behind its first `=`, without the white
/// space around it; without a `=`, it is the whole.
pub proof fn law_parameter_value_is_behind_the_equals_sign(
    name: Seq<char>,
    pre: Seq<char>,
    value: Seq<char>,
    post: Seq<char>,
)
    requires
        !name.contains('='),
        text::all_spaces(pre),
        text::all_spaces(post),
        value.len() > 0 ==> !text::is_space(value[0]) && !text::is_space(value.last()),
    ensures
        value_text(name + seq!['='] + (pre + value + post)) == value,
        !value.contains('=') ==> value_text(pre + value + post) == value,
{
    text::law_split_once(name, pre + value + post, '=');
    text::law_trimming_takes_the_surrounding_space(pre, value, post);
    if !value.contains('=') {
        let whole = pre + value + post;
        assert forall|i: int| 0 <= i < whole.len() implies whole[i] != '=' by {
            if i < pre.len() {
                assert(text::is_space(pre[i]));
            } else if i < pre.len() + value.len() {
                assert(whole[i] == value[i - pre.len()]);
            } else {
                assert(text::is_space(post[i - pre.len() - value.len()]));
            }
        }
        text::law_split_once(whole, Seq::empty(), '=');
    }
}

/// Whether a value of a message is the one that a text stands for.
pub open spec fn value_is_of(value: Value, s: Seq<char>, float_bits: Option<u64>) -> bool {
    typed_value(s, float_bits) matches Ok(v) && is_value(value, v)
}

proof fn lemma_positional(
    positional: Seq<Value>,
    named: Seq<NamedParameter>,
    raw: Seq<String>,
    floats: Seq<Option<u64>>,
    n: int,
)
    requires
        0 <= n <= raw.len(),
        stand_for(positional, named, raw, floats, n),
        forall|i: int| 0 <= i < n ==> !(#[trigger] raw[i])@.contains('='),
    ensures
        named.len() == 0,
        positional.len() == n,
        forall|i: int|
            0 <= i < n ==> value_is_of(#[trigger] positional[i], text::trimmed(raw[i]@), floats[i]),
    decreases n,
{
    if n > 0 {
        text::law_split_once(raw[n - 1]@, Seq::empty(), '=');
        let fewer = positional.drop_last();
        lemma_positional(fewer, named, raw, floats, n - 1);
        assert forall|i: int| 0 <= i < n implies value_is_of(
            #[trigger] positional[i],
            text::trimmed(raw[i]@),
            floats[i],
        ) by {
            if i < n - 1 {
                assert(fewer[i] == positional[i]);
            }
        }
    }
}

/// Parameters without a `=` are all given by position, each with its own value, in
/// their order.
pub proof fn law_plain_parameters_keep_their_places(
    positional: Seq<Value>,
    named: Seq<NamedParameter>,
    raw: Seq<String>,
    floats: Seq<Option<u64>>,
)
    requires
        stand_for(positional, named, raw, floats, raw.len() as int),
        forall|i: int| 0 <= i < raw.len() ==> !(#[trigger] raw[i])@.contains('='),
    ensures
        named.len() == 0,
        positional.len() == raw.len(),
        forall|i: int|
            0 <= i < raw.len() ==> value_is_of(
                #[trigger] positional[i],
                text::trimmed(raw[i]@),
                floats[i],
            ),
{
    lemma_positional(positional, named, raw, floats, raw.len() as int);
}

proof fn lemma_parameter_counts(
    positional: Seq<Value>,
    named: Seq<NamedParameter>,
    raw: Seq<String>,
    floats: Seq<Option<u64>>,
    n: int,
)
    requires
        0 <= n <= raw.len(),
        stand_for(positional, named, raw, floats, n),
    ensures
        positional.len() + named.len() == n,
        (forall|i: int| 0 <= i < n ==> (#[trigger] raw[i])@.contains('=')) ==> positional.len() == 0
            && forall|i: int|
            0 <= i < n ==> (#[trigger] named[i]).name@ == text::trimmed(
                raw[i]@.take(text::first_index(raw[i]@, '=')),
            ),
    decreases n,
{
    if n > 0 {
        let p = raw[n - 1]@;
        text::law_first_index(p, '=');
        if p.contains('=') {
            let fewer = named.drop_last();
            lemma_parameter_counts(positional, fewer, raw, floats, n - 1);
            if forall|i: int| 0 <= i < n ==> (#[trigger] raw[i])@.contains('=') {
                assert forall|i: int| 0 <= i < n implies (#[trigger] named[i]).name@
                    == text::trimmed(raw[i]@.take(text::first_index(raw[i]@, '='))) by {
                    if i < n - 1 {
                        assert(fewer[i] == named[i]);
                    }
                }
            }
        } else {
            lemma_parameter_counts(positional.drop_last(), named, raw, floats, n - 1);
        }
    }
}

/// No parameter is lost or made up, and where each one has a `=`, each is given by
/// the name before it, without the white space around it, in their order.
pub proof fn law_each_parameter_is_given_once(
    positional: Seq<Value>,
    named: Seq<NamedParameter>,
    raw: Seq<String>,
    floats: Seq<Option<u64>>,
)
    requires
        stand_for(positional, named, raw, floats, raw.len() as int),
    ensures
        positional.len() + named.len() == raw.len(),
        (forall|i: int| 0 <= i < raw.len() ==> (#[trigger] raw[i])@.contains('='))
            ==> positional.len() == 0 && forall|i: int|
            0 <= i < raw.len() ==> (#[trigger] named[i]).name@ == text::trimmed(
                raw[i]@.take(text::first_index(raw[i]@, '=')),
            ),
{
    lemma_parameter_counts(positional, named, raw, floats, raw.len() as int);
}

/// What a text of the command line stands for is what the value in the message stands
/// for to the database.
pub proof fn law_typed_values_reach_the_database(value: Value, v: TypedView)
    requires
        is_value(value, v),
    ensures
        match v {
            TypedView::Null => values::value_view(value) == SqlView::Null,
            TypedView::Integer(i) => values::value_view(value) matches SqlView::Integer(n) && n == i,
            TypedView::Float(bits) => values::value_view(value) == SqlView::Float(bits),
            TypedView::Text(t) => values::value_view(value) == SqlView::Text(t),
            TypedView::Blob(b) => values::value_view(value) == SqlView::Blob(b),
        },
{
}

/// Parameters are refused exactly if one of them is, with what is wrong with the
/// first such one.
pub proof fn law_first_wrong_parameter_is_told(
    raw: Seq<String>,
    floats: Seq<Option<u64>>,
    i: int,
    bad: int,
)
    requires
        0 <= i <= bad <= raw.len(),
        forall|k: int|
            i <= k < bad ==> typed_value(value_text((#[trigger] raw[k])@), floats[k]) is Ok,
        bad < raw.len() ==> typed_value(value_text(raw[bad]@), floats[bad]) is Err,
    ensures
        parameters_error(raw, floats, i) == if bad < raw.len() {
            Some(typed_value(value_text(raw[bad]@), floats[bad])->Err_0)
        } else {
            None
        },
    decreases raw.len() - i,
{
    if i < bad {
        assert(typed_value(value_text(raw[i]@), floats[i]) is Ok);
        law_first_wrong_parameter_is_told(raw, floats, i + 1, bad);
    }
}

/// What is wrong with a blob literal is told with the literal: a character that is no
/// digit before a digit too few.
pub proof fn law_wrong_blob_literal_is_told(h: Seq<char>)
    ensures
        ({
            let s = "x'"@ + h + "'"@;
            &&& !all_hex(h) ==> typed_value(s, None) == Err::<TypedView, Seq<char>>(
                "invalid hex blob literal '"@ + s + "': contains non-hex characters"@,
            )
            &&& all_hex(h) && h.len() % 2 != 0 ==> typed_value(s, None) == Err::<
                TypedView,
                Seq<char>,
            >("invalid hex blob literal '"@ + s + "': odd number of hex digits"@)
        }),
{
    lemma_blob_literal(h);
}

/// An empty text, and one that starts like a blob literal and does not end like one,
/// stand for themselves.
pub proof fn law_unfinished_literals_are_text(s: Seq<char>)
    requires
        s.len() == 0 || (s[0] == 'x' && (s.len() < 3 || s[1] != '\'' || s.last() != '\'')),
    ensures
        typed_value(s, None) == Ok::<TypedView, Seq<char>>(TypedView::Text(s)),
{
    reveal_strlit("null");
    assert("null"@.len() == 4);
    if s.len() > 0 {
        assert(text::ascii_lower(s[0]) == 'x');
        assert(text::ascii_lower("null"@[0]) == 'n');
    }
    text::law_other_texts_are_no_numbers(s, 0);
}

/// A named parameter has the value behind its `=`, also among others: the last one
/// added comes last, and those before it stay.
pub proof fn law_last_parameter_comes_last(
    positional: Seq<Value>,
    named: Seq<NamedParameter>,
    raw: Seq<String>,
    floats: Seq<Option<u64>>,
    n: int,
)
    requires
        0 < n <= raw.len(),
        stand_for(positional, named, raw, floats, n),
    ensures
        raw[n - 1]@.contains('=') ==> named.len() > 0 && (named.last().value matches Some(v)
            && value_is_of(v, value_text(raw[n - 1]@), floats[n - 1])) && stand_for(
            positional,
            named.drop_last(),
            raw,
            floats,
            n - 1,
        ),
        !raw[n - 1]@.contains('=') ==> positional.len() > 0 && value_is_of(
            positional.last(),
            text::trimmed(raw[n - 1]@),
            floats[n - 1],
        ) && stand_for(positional.drop_last(), named, raw, floats, n - 1),
{
    text::law_first_index(raw[n - 1]@, '=');
}

/// A query is what begins with one of four words, and nothing else is.
pub proof fn law_queries_begin_with_their_words(upper: Seq<char>)
    ensures
        begins_like_query(upper) <==> {
            ||| upper.len() >= 6 && upper.take(6) == "SELECT"@
            ||| upper.len() >= 6 && upper.take(6) == "PRAGMA"@
            ||| upper.len() >= 7 && upper.take(7) == "EXPLAIN"@
            ||| upper.len() >= 4 && upper.take(4) == "WITH"@
        },
{
    reveal_strlit("SELECT");
    reveal_strlit("PRAGMA");
    reveal_strlit("EXPLAIN");
    reveal_strlit("WITH");
    assert("SELECT"@.len() == 6 && "PRAGMA"@.len() == 6 && "EXPLAIN"@.len() == 7 && "WITH"@.len()
        == 4);
    lemma_prefix("SELECT"@, upper);
    lemma_prefix("PRAGMA"@, upper);
    lemma_prefix("EXPLAIN"@, upper);
    lemma_prefix("WITH"@, upper);
}

proof fn lemma_prefix(p: Seq<char>, s: Seq<char>)
    ensures
        p.is_prefix_of(s) <==> s.len() >= p.len() && s.take(p.len() as int) == p,
{
    if p.is_prefix_of(s) {
        assert(s.take(p.len() as int) =~= p);
    }
}

} // verus!
