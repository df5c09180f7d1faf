//! Values and parameters between the messages of the gateway and SQLite.
use vstd::prelude::*;

use crate::db::SqlValue;
use crate::error::{Result, SyncError};
use crate::proto::{ColumnHeader, ColumnType, Parameters, Row, Value, ValueKind};
use crate::text;

verus! {

/// A value of SQLite, as plain data.
#[verifier::ext_equal]
pub enum SqlView {
    Null,
    Integer(i64),
    Float(u64),
    Text(Seq<char>),
    Blob(Seq<u8>),
}

/// What a value of SQLite holds.
pub open spec fn sql_view(v: SqlValue) -> SqlView {
    match v {
        SqlValue::Null => SqlView::Null,
        SqlValue::Integer(i) => SqlView::Integer(i),
        SqlValue::Float(bits) => SqlView::Float(bits),
        SqlValue::Text(t) => SqlView::Text(t@),
        SqlValue::Blob(b) => SqlView::Blob(b@),
    }
}

/// What a value of a message stands for.
pub open spec fn value_view(v: Value) -> SqlView {
    match v.value {
        None => SqlView::Null,
        Some(ValueKind::NullValue(_)) => SqlView::Null,
        Some(ValueKind::IntValue(i)) => SqlView::Integer(i),
        Some(ValueKind::FloatValue(bits)) => SqlView::Float(bits),
        Some(ValueKind::TextValue(t)) => SqlView::Text(t@),
        Some(ValueKind::BlobValue(b)) => SqlView::Blob(b@),
    }
}

/// The value of a message for a value of SQLite.
pub open spec fn wire_value(v: SqlValue) -> Value {
    Value {
        value: Some(
            match v {
                SqlValue::Null => ValueKind::NullValue(true),
                SqlValue::Integer(i) => ValueKind::IntValue(i),
                SqlValue::Float(bits) => ValueKind::FloatValue(bits),
                SqlValue::Text(t) => ValueKind::TextValue(t),
                SqlValue::Blob(b) => ValueKind::BlobValue(b),
            },
        ),
    }
}

/// The value of a message for a value of SQLite.
pub fn sql_value_to_proto(val: SqlValue) -> (r: Value)
    ensures
        r == wire_value(val),
{
    match val {
        SqlValue::Null => Value { value: Some(ValueKind::NullValue(true)) },
        SqlValue::Integer(i) => Value { value: Some(ValueKind::IntValue(i)) },
        SqlValue::Float(bits) => Value { value: Some(ValueKind::FloatValue(bits)) },
        SqlValue::Text(t) => Value { value: Some(ValueKind::TextValue(t)) },
        SqlValue::Blob(b) => Value { value: Some(ValueKind::BlobValue(b)) },
    }
}

/// The same bytes once more.
fn copy_bytes(bytes: &Vec<u8>) -> (r: Vec<u8>)
    ensures
        r@ == bytes@,
{
    let mut out: Vec<u8> = Vec::new();
    let mut i: usize = 0;
    while i < bytes.len()
        invariant
            i <= bytes@.len(),
            out@ == bytes@.take(i as int),
        decreases bytes@.len() - i,
    {
        out.push(bytes[i]);
        assert(bytes@.take(i + 1) == bytes@.take(i as int).push(bytes@[i as int]));
        i = i + 1;
    }
    assert(bytes@.take(i as int) == bytes@);
    out
}

/// The value of SQLite for a value of a message.
pub fn proto_value_to_sql(val: &Value) -> (r: SqlValue)
    ensures
        sql_view(r) == value_view(*val),
{
    match &val.value {
        None => SqlValue::Null,
        Some(ValueKind::NullValue(_)) => SqlValue::Null,
        Some(ValueKind::IntValue(i)) => SqlValue::Integer(*i),
        Some(ValueKind::FloatValue(bits)) => SqlValue::Float(*bits),
        Some(ValueKind::TextValue(t)) => SqlValue::Text(t.clone()),
        Some(ValueKind::BlobValue(b)) => SqlValue::Blob(copy_bytes(b)),
    }
}

/// A value of SQLite survives the way into a message and back.
pub proof fn law_values_round_trip(v: SqlValue)
    ensures
        value_view(wire_value(v)) == sql_view(v),
{
}

/// The row of a message for the values of a row.
pub open spec fn wire_row(values: Seq<SqlValue>) -> Seq<Value> {
    Seq::new(values.len(), |i: int| wire_value(values[i]))
}

/// The row of a message for the values of a row.
pub fn row_of(values: Vec<SqlValue>) -> (r: Row)
    ensures
        r.values@ == wire_row(values@),
{
    let ghost all = values@;
    let mut rest: Vec<SqlValue> = values;
    let mut out: Vec<Value> = Vec::new();
    while rest.len() > 0
        invariant
            out@.len() + rest@.len() == all.len(),
            rest@ == all.skip(out@.len() as int),
            out@ == wire_row(all.take(out@.len() as int)),
        decreases rest@.len(),
    {
        let ghost k = out@.len() as int;
        let value: SqlValue = rest.remove(0);
        assert(value == all[k]);
        out.push(sql_value_to_proto(value));
        assert(all.skip(k).remove(0) == all.skip(k + 1));
        assert(wire_row(all.take(k + 1)) == wire_row(all.take(k)).push(wire_value(all[k])));
    }
    assert(all.take(out@.len() as int) == all);
    Row { values: out }
}

// ---------------------------------------------------------------------------
// Columns
// ---------------------------------------------------------------------------

/// The affinity of a column with this declared type.
pub open spec fn affinity(declared: Seq<char>) -> ColumnType {
    let upper = text::ascii_uppered(declared);
    if text::has_text(upper, "INT"@) {
        ColumnType::Integer
    } else if text::has_text(upper, "CHAR"@) || text::has_text(upper, "TEXT"@) || text::has_text(
        upper,
        "CLOB"@,
    ) {
        ColumnType::Text
    } else if text::has_text(upper, "BLOB"@) {
        ColumnType::Blob
    } else if text::has_text(upper, "REAL"@) || text::has_text(upper, "FLOA"@) || text::has_text(
        upper,
        "DOUB"@,
    ) {
        ColumnType::Float
    } else {
        ColumnType::Unspecified
    }
}

/// The affinity of a column with this declared type.
pub fn map_decltype_to_proto(decltype: &str) -> (r: ColumnType)
    ensures
        r == affinity(decltype@),
{
    let upper: String = text::ascii_uppercase(decltype);
    let u: &str = upper.as_str();
    if text::contains_text(u, "INT") {
        ColumnType::Integer
    } else if text::contains_text(u, "CHAR") || text::contains_text(u, "TEXT")
        || text::contains_text(u, "CLOB") {
        ColumnType::Text
    } else if text::contains_text(u, "BLOB") {
        ColumnType::Blob
    } else if text::contains_text(u, "REAL") || text::contains_text(u, "FLOA")
        || text::contains_text(u, "DOUB") {
        ColumnType::Float
    } else {
        ColumnType::Unspecified
    }
}

/// A column as SQLite describes it: its name, and its declared type where it has
/// one.
#[derive(Debug)]
pub struct ColumnInfo {
    pub name: String,
    pub declared_type: Option<String>,
}

/// The declared type of a column, or else the empty text.
pub open spec fn declared_text(c: ColumnInfo) -> Seq<char> {
    match c.declared_type {
        Some(t) => t@,
        None => Seq::empty(),
    }
}

/// Whether this is the header of this column.
pub open spec fn describes(h: ColumnHeader, c: ColumnInfo) -> bool {
    h.name@ == c.name@ && h.declared_type@ == declared_text(c) && h.column_type == affinity(
        declared_text(c),
    )
}

/// Whether these are the headers of these columns.
pub open spec fn headers_of(headers: Seq<ColumnHeader>, columns: Seq<ColumnInfo>) -> bool {
    headers.len() == columns.len() && forall|i: int|
        0 <= i < columns.len() ==> describes(#[trigger] headers[i], columns[i])
}

/// The headers of the columns of a result.
pub fn column_headers(columns: &Vec<ColumnInfo>) -> (r: Vec<ColumnHeader>)
    ensures
        headers_of(r@, columns@),
{
    let mut out: Vec<ColumnHeader> = Vec::new();
    let mut i: usize = 0;
    while i < columns.len()
        invariant
            i == out@.len(),
            i <= columns@.len(),
            forall|j: int| 0 <= j < i ==> describes(#[trigger] out@[j], columns@[j]),
        decreases columns@.len() - i,
    {
        let declared: String = match &columns[i].declared_type {
            Some(t) => t.clone(),
            None => String::new(),
        };
        let column_type: ColumnType = map_decltype_to_proto(declared.as_str());
        out.push(
            ColumnHeader { name: columns[i].name.clone(), column_type, declared_type: declared },
        );
        i = i + 1;
    }
    out
}

// ---------------------------------------------------------------------------
// Parameters
// ---------------------------------------------------------------------------

/// The place of a parameter in a statement.
#[derive(Debug, PartialEq, Eq)]
pub enum BindTarget {
    /// By its index, counted from 1.
    Index(i32),
    /// By its name.
    Name(String),
}

/// A value to bind to a parameter.
#[derive(Debug, PartialEq, Eq)]
pub struct Binding {
    pub target: BindTarget,
    pub value: SqlValue,
}

/// The place of a parameter in a statement, as plain data.
#[verifier::ext_equal]
pub enum TargetView {
    Index(i32),
    Name(Seq<char>),
}

/// A value to bind to a parameter, as plain data.
#[verifier::ext_equal]
pub struct BindingView {
    pub target: TargetView,
    pub value: SqlView,
}

impl Binding {
    /// What this binding holds.
    pub open spec fn view(self) -> BindingView {
        BindingView {
            target: match self.target {
                BindTarget::Index(i) => TargetView::Index(i),
                BindTarget::Name(n) => TargetView::Name(n@),
            },
            value: sql_view(self.value),
        }
    }
}

/// What these bindings hold.
pub open spec fn binding_views(v: Seq<Binding>) -> Seq<BindingView> {
    Seq::new(v.len(), |i: int| v[i].view())
}

/// The bindings of the positional parameters, counted from 1.
pub open spec fn positional_bindings(values: Seq<Value>) -> Seq<BindingView> {
    Seq::new(
        values.len(),
        |i: int|
            BindingView {
                target: TargetView::Index(((i + 1) as usize) as i32),
                value: value_view(values[i]),
            },
    )
}

/// The bindings of the first `n` named parameters; one without a value is left
/// out.
pub open spec fn named_bindings(p: Parameters, n: int) -> Seq<BindingView>
    decreases n,
{
    if n <= 0 {
        Seq::empty()
    } else {
        let before = named_bindings(p, n - 1);
        match p.named@[n - 1].value {
            Some(v) => before.push(
                BindingView {
                    target: TargetView::Name(p.named@[n - 1].name@),
                    value: value_view(v),
                },
            ),
            None => before,
        }
    }
}

/// The bindings of the parameters of a statement, in the order in which they are
/// made: the positional ones, then the named ones.
pub open spec fn bindings_of(params: Option<Parameters>) -> Seq<BindingView> {
    match params {
        None => Seq::empty(),
        Some(p) => positional_bindings(p.positional@) + named_bindings(p, p.named@.len() as int),
    }
}

/// The bindings of the parameters of a statement, in the order in which they are
/// made.
pub fn bind_parameters(params: &Option<Parameters>) -> (r: Vec<Binding>)
    ensures
        binding_views(r@) == bindings_of(*params),
{
    let mut out: Vec<Binding> = Vec::new();
    match params {
        None => {
            assert(binding_views(out@) == bindings_of(*params));
            out
        },
        Some(p) => {
            let mut i: usize = 0;
            while i < p.positional.len()
                invariant
                    i <= p.positional@.len(),
                    binding_views(out@) == positional_bindings(p.positional@.take(i as int)),
                decreases p.positional@.len() - i,
            {
                let ghost before = out@;
                let index: i32 = (i + 1) as i32;
                let b: Binding = Binding {
                    target: BindTarget::Index(index),
                    value: proto_value_to_sql(&p.positional[i]),
                };
                out.push(b);
                assert(binding_views(out@) == binding_views(before).push(b.view()));
                assert(positional_bindings(p.positional@.take(i + 1)) == positional_bindings(
                    p.positional@.take(i as int),
                ).push(b.view()));
                i = i + 1;
            }
            assert(p.positional@.take(i as int) == p.positional@);
            let ghost head = positional_bindings(p.positional@);
            let mut k: usize = 0;
            assert(head + named_bindings(*p, 0) == head);
            while k < p.named.len()
                invariant
                    k <= p.named@.len(),
                    head == positional_bindings(p.positional@),
                    binding_views(out@) == head + named_bindings(*p, k as int),
                decreases p.named@.len() - k,
            {
                let ghost before = out@;
                match &p.named[k].value {
                    Some(v) => {
                        let b: Binding = Binding {
                            target: BindTarget::Name(p.named[k].name.clone()),
                            value: proto_value_to_sql(v),
                        };
                        out.push(b);
                        assert(binding_views(out@) == binding_views(before).push(b.view()));
                        assert(head + named_bindings(*p, k as int).push(b.view()) == (head
                            + named_bindings(*p, k as int)).push(b.view()));
                    },
                    None => {},
                }
                k = k + 1;
            }
            out
        },
    }
}

/// The index of a named parameter, from what the prepared statement knows of it.
pub fn named_parameter_index(name: &str, found: Option<i32>) -> (r: Result<i32>)
    ensures
        match r {
            Ok(index) => found == Some(index),
            Err(e) => found is None && e.is_protocol(
                "named parameter '"@ + name@ + "' not found in prepared statement"@,
            ),
        },
{
    match found {
        Some(index) => Ok(index),
        None => {
            let mut m: String = "named parameter '".to_owned();
            m.append(name);
            m.append("' not found in prepared statement");
            Err(SyncError::Protocol(m))
        },
    }
}

/// A value of a message stands for what it holds; one that holds nothing is NULL.
pub proof fn law_message_values_stand_for_their_content(
    flag: bool,
    i: i64,
    bits: u64,
    t: String,
    b: Vec<u8>,
)
    ensures
        value_view(Value { value: None }) == SqlView::Null,
        value_view(Value { value: Some(ValueKind::NullValue(flag)) }) == SqlView::Null,
        value_view(Value { value: Some(ValueKind::IntValue(i)) }) == SqlView::Integer(i),
        value_view(Value { value: Some(ValueKind::FloatValue(bits)) }) == SqlView::Float(bits),
        value_view(Value { value: Some(ValueKind::TextValue(t)) }) == SqlView::Text(t@),
        value_view(Value { value: Some(ValueKind::BlobValue(b)) }) == SqlView::Blob(b@),
{
}

/// Two values of SQLite that go into messages of the same content are the same.
pub proof fn law_different_values_go_into_different_messages(a: SqlValue, b: SqlValue)
    requires
        value_view(wire_value(a)) == value_view(wire_value(b)),
    ensures
        a is Null == b is Null,
        a matches SqlValue::Integer(i) ==> b == SqlValue::Integer(i),
        a matches SqlValue::Float(bits) ==> b == SqlValue::Float(bits),
        a matches SqlValue::Text(t) ==> (b matches SqlValue::Text(u) && t@ == u@),
        a matches SqlValue::Blob(d) ==> (b matches SqlValue::Blob(e) && d@ == e@),
{
}

/// A declared type with `INT` in it is an integer's, whatever is around it.
pub proof fn law_int_columns_are_integers(before: Seq<char>, after: Seq<char>)
    ensures
        affinity(before + "INT"@ + after) == ColumnType::Integer,
        affinity(before + "int"@ + after) == ColumnType::Integer,
{
    lemma_upper_part(before, "INT"@, after, "INT"@);
    lemma_upper_part(before, "int"@, after, "INT"@);
    reveal_strlit("INT");
    reveal_strlit("int");
    assert(text::ascii_uppered("INT"@) =~= "INT"@);
    assert(text::ascii_uppered("int"@) =~= "INT"@);
}

proof fn lemma_upper_part(before: Seq<char>, p: Seq<char>, after: Seq<char>, up: Seq<char>)
    ensures
        text::ascii_uppered(p) == up ==> text::has_text(
            text::ascii_uppered(before + p + after),
            up,
        ),
{
    if text::ascii_uppered(p) == up {
        assert(text::ascii_uppered(before + p + after) =~= text::ascii_uppered(before) + up
            + text::ascii_uppered(after));
        text::law_part_of_a_text_is_found(
            text::ascii_uppered(before),
            up,
            text::ascii_uppered(after),
        );
    }
}

/// The words in a declared type that tell its affinity, from the strongest on, in any
/// letter case; a type with none of them has none.
pub proof fn law_affinity_follows_the_strongest_word(declared: Seq<char>)
    ensures
        ({
            let upper = text::ascii_uppered(declared);
            let whole = text::has_text(upper, "INT"@);
            let chars = text::has_text(upper, "CHAR"@) || text::has_text(upper, "CLOB"@)
                || text::has_text(upper, "TEXT"@);
            let blob = text::has_text(upper, "BLOB"@);
            let fraction = text::has_text(upper, "REAL"@) || text::has_text(upper, "FLOA"@)
                || text::has_text(upper, "DOUB"@);
            &&& affinity(declared) == ColumnType::Integer <==> whole
            &&& affinity(declared) == ColumnType::Text <==> !whole && chars
            &&& affinity(declared) == ColumnType::Blob <==> !whole && !chars && blob
            &&& affinity(declared) == ColumnType::Float <==> !whole && !chars && !blob && fraction
            &&& affinity(declared) == ColumnType::Unspecified <==> !whole && !chars && !blob && !fraction
        }),
{
}

/// The letter case of a declared type does not matter.
pub proof fn law_affinity_ignores_case(a: Seq<char>, b: Seq<char>)
    requires
        text::same_ignoring_case(a, b),
    ensures
        affinity(a) == affinity(b),
{
    assert(text::ascii_uppered(a) =~= text::ascii_uppered(b)) by {
        assert forall|i: int| 0 <= i < a.len() implies text::ascii_upper(a[i])
            == text::ascii_upper(b[i]) by {
            assert(text::ascii_lower(a[i]) == text::ascii_lower(b[i]));
        }
    }
}

proof fn lemma_named_bindings(p: Parameters, n: int)
    requires
        0 <= n <= p.named@.len(),
        forall|k: int| 0 <= k < n ==> (#[trigger] p.named@[k]).value is Some,
    ensures
        named_bindings(p, n).len() == n,
        forall|k: int|
            0 <= k < n ==> (#[trigger] named_bindings(p, n)[k]).target == TargetView::Name(
                p.named@[k].name@,
            ) && named_bindings(p, n)[k].value == value_view(p.named@[k].value->0),
    decreases n,
{
    if n > 0 {
        lemma_named_bindings(p, n - 1);
        assert(p.named@[n - 1].value is Some);
        let before = named_bindings(p, n - 1);
        assert forall|k: int| 0 <= k < n implies (#[trigger] named_bindings(p, n)[k]).target
            == TargetView::Name(p.named@[k].name@) && named_bindings(p, n)[k].value == value_view(
            p.named@[k].value->0,
        ) by {
            if k < n - 1 {
                assert(named_bindings(p, n)[k] == before[k]);
            }
        }
    }
}

/// Every parameter is bound once, with its own value: those by position to the places
/// from 1 on, and then those by name to their names.
pub proof fn law_each_parameter_is_bound_to_its_place(p: Parameters)
    requires
        p.positional@.len() < i32::MAX,
        forall|k: int| 0 <= k < p.named@.len() ==> (#[trigger] p.named@[k]).value is Some,
    ensures
        ({
            let all = bindings_of(Some(p));
            let n = p.positional@.len() as int;
            &&& all.len() == n + p.named@.len()
            &&& forall|k: int|
                0 <= k < n ==> ((#[trigger] all[k]).target matches TargetView::Index(i) && i == k
                    + 1) && all[k].value == value_view(p.positional@[k])
            &&& forall|k: int|
                0 <= k < p.named@.len() ==> (#[trigger] all[n + k]).target == TargetView::Name(
                    p.named@[k].name@,
                ) && all[n + k].value == value_view(p.named@[k].value->0)
        }),
{
    let all = bindings_of(Some(p));
    let n = p.positional@.len() as int;
    let named = named_bindings(p, p.named@.len() as int);
    lemma_named_bindings(p, p.named@.len() as int);
    assert forall|k: int| 0 <= k < n implies ((#[trigger] all[k]).target matches TargetView::Index(
        i,
    ) && i == k + 1) && all[k].value == value_view(p.positional@[k]) by {
        assert(all[k] == positional_bindings(p.positional@)[k]);
    }
    assert forall|k: int| 0 <= k < p.named@.len() implies (#[trigger] all[n + k]).target
        == TargetView::Name(p.named@[k].name@) && all[n + k].value == value_view(
        p.named@[k].value->0,
    ) by {
        assert(all[n + k] == named[k]);
    }
}

/// A statement without parameters binds nothing, and a named one without a value is
/// left out while the others stay.
pub proof fn law_parameters_without_a_value_are_left_out(p: Parameters, n: int)
    requires
        0 < n <= p.named@.len(),
        p.named@[n - 1].value is None,
    ensures
        bindings_of(None) == Seq::<BindingView>::empty(),
        named_bindings(p, n) == named_bindings(p, n - 1),
{
}

/// A row of a message has the values of the row, each in its place.
pub proof fn law_row_keeps_its_values(values: Seq<SqlValue>, i: int)
    requires
        0 <= i < values.len(),
    ensures
        wire_row(values).len() == values.len(),
        value_view(wire_row(values)[i]) == sql_view(values[i]),
{
}

/// There is a header for each column, with its name, its declared type or else none,
/// and the affinity of that.
pub proof fn law_headers_describe_the_columns(
    headers: Seq<ColumnHeader>,
    columns: Seq<ColumnInfo>,
    i: int,
)
    requires
        headers_of(headers, columns),
        0 <= i < columns.len(),
    ensures
        headers.len() == columns.len(),
        headers[i].name@ == columns[i].name@,
        columns[i].declared_type matches Some(t) ==> headers[i].declared_type@ == t@
            && headers[i].column_type == affinity(t@),
        columns[i].declared_type is None ==> headers[i].declared_type@.len() == 0
            && headers[i].column_type == ColumnType::Unspecified,
{
    assert(describes(headers[i], columns[i]));
    reveal_strlit("INT");
    reveal_strlit("CHAR");
    reveal_strlit("CLOB");
    reveal_strlit("TEXT");
    reveal_strlit("BLOB");
    reveal_strlit("REAL");
    reveal_strlit("FLOA");
    reveal_strlit("DOUB");
    let none = Seq::<char>::empty();
    assert(text::ascii_uppered(none) =~= none);
    if columns[i].declared_type is None {
        assert(headers[i].declared_type@ == none);
        assert(affinity(none) == ColumnType::Unspecified);
    }
}

} // verus!
