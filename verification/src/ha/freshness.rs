//! The freshness ledger file of a node in service.
use vstd::prelude::*;

use crate::error::{Result, SyncError};
use crate::ha::policy::FreshnessLedger;
use crate::ha::records::FreshnessView;
use crate::text;

verus! {

/// The fields of a ledger read so far.
#[verifier::ext_equal]
pub struct LedgerFields {
    pub source_node_id: Option<Seq<char>>,
    pub source_generation: Option<nat>,
    pub synced_at_secs: Option<nat>,
}

/// No fields.
pub open spec fn no_fields() -> LedgerFields {
    LedgerFields { source_node_id: None, source_generation: None, synced_at_secs: None }
}

/// The fields after one more line, or what is wrong with it.
pub open spec fn after_line(f: LedgerFields, raw: Seq<char>) -> core::result::Result<
    LedgerFields,
    Seq<char>,
> {
    let line = text::trimmed(raw);
    if line.len() == 0 {
        Ok(f)
    } else {
        match text::split_once_at(line, '=') {
            None => Err("invalid freshness line (expected key=value): "@ + line),
            Some((k, v)) => {
                let key = text::trimmed(k);
                let value = text::trimmed(v);
                let number = text::unsigned_number(value, u64::MAX as nat);
                if key == "source_node_id"@ {
                    Ok(LedgerFields { source_node_id: Some(value), ..f })
                } else if key == "source_generation"@ {
                    if number is Some {
                        Ok(LedgerFields { source_generation: number, ..f })
                    } else {
                        Err("invalid source_generation: "@ + value)
                    }
                } else if key == "synced_at_secs"@ {
                    if number is Some {
                        Ok(LedgerFields { synced_at_secs: number, ..f })
                    } else {
                        Err("invalid synced_at_secs: "@ + value)
                    }
                } else {
                    Err("unknown freshness key: "@ + key)
                }
            },
        }
    }
}

/// The fields after these lines, or what is wrong with the first bad one.
pub open spec fn after_lines(f: LedgerFields, lines: Seq<Seq<char>>) -> core::result::Result<
    LedgerFields,
    Seq<char>,
>
    decreases lines.len(),
{
    if lines.len() == 0 {
        Ok(f)
    } else {
        match after_line(f, lines[0]) {
            Err(e) => Err(e),
            Ok(g) => after_lines(g, lines.skip(1)),
        }
    }
}

/// The ledger of these fields, or what is missing.
pub open spec fn ledger_of(f: LedgerFields) -> core::result::Result<FreshnessView, Seq<char>> {
    match (f.source_node_id, f.source_generation, f.synced_at_secs) {
        (None, _, _) => Err("missing source_node_id"@),
        (Some(id), generation, synced) => if id.len() == 0 {
            Err("source_node_id must not be empty"@)
        } else if generation is None {
            Err("missing source_generation"@)
        } else if synced is None {
            Err("missing synced_at_secs"@)
        } else {
            Ok(
                FreshnessView {
                    source_node_id: id,
                    source_generation: generation->0,
                    synced_at_secs: synced->0,
                },
            )
        },
    }
}

/// The ledger that a text holds, or what is wrong with it.
pub open spec fn ledger_meaning(input: Seq<char>) -> core::result::Result<
    FreshnessView,
    Seq<char>,
> {
    match after_lines(no_fields(), text::pieces(input, '\n')) {
        Err(e) => Err(e),
        Ok(f) => ledger_of(f),
    }
}

/// The number of a field, or what is wrong with it.
fn field_number(name: &str, value: &str) -> (r: core::result::Result<u64, String>)
    ensures
        match r {
            Ok(n) => text::unsigned_number(value@, u64::MAX as nat) == Some(n as nat),
            Err(e) => text::unsigned_number(value@, u64::MAX as nat) is None && e@ == "invalid "@
                + name@ + ": "@ + value@,
        },
{
    match text::parse_unsigned(value, u64::MAX) {
        Some(n) => Ok(n),
        None => {
            let mut m: String = "invalid ".to_owned();
            m.append(name);
            m.append(": ");
            m.append(value);
            Err(m)
        },
    }
}

/// The ledger that a text of `key=value` lines holds. Of a key that occurs twice
/// the last value counts.
pub fn parse_freshness_ledger(input: &str) -> (r: core::result::Result<FreshnessLedger, String>)
    ensures
        match r {
            Ok(l) => ledger_meaning(input@) == Ok::<FreshnessView, Seq<char>>(l@),
            Err(e) => ledger_meaning(input@) == Err::<FreshnessView, Seq<char>>(e@),
        },
{
    let lines: Vec<String> = text::split_all(input, '\n');
    let mut source_node_id: Option<String> = None;
    let mut source_generation: Option<u64> = None;
    let mut synced_at_secs: Option<u64> = None;
    let ghost all = text::pieces(input@, '\n');
    let ghost mut fields = no_fields();
    let mut i: usize = 0;
    assert(all.skip(0) == all);
    proof {
        reveal_strlit("invalid source_generation: ");
        reveal_strlit("invalid synced_at_secs: ");
        reveal_strlit("invalid ");
        reveal_strlit("source_generation");
        reveal_strlit("synced_at_secs");
        reveal_strlit(": ");
        assert("invalid "@ + "source_generation"@ + ": "@ =~= "invalid source_generation: "@);
        assert("invalid "@ + "synced_at_secs"@ + ": "@ =~= "invalid synced_at_secs: "@);
    }
    while i < lines.len()
        invariant
            i <= lines@.len(),
            text::views(lines@) == all,
            all == text::pieces(input@, '\n'),
            fields.source_node_id == text::opt_view(source_node_id),
            fields.source_generation == match source_generation {
                Some(n) => Some(n as nat),
                None => None,
            },
            fields.synced_at_secs == match synced_at_secs {
                Some(n) => Some(n as nat),
                None => None,
            },
            after_lines(no_fields(), all) == after_lines(fields, all.skip(i as int)),
            "invalid "@ + "source_generation"@ + ": "@ == "invalid source_generation: "@,
            "invalid "@ + "synced_at_secs"@ + ": "@ == "invalid synced_at_secs: "@,
        decreases lines@.len() - i,
    {
        assert(text::views(lines@)[i as int] == lines@[i as int]@);
        assert(all.skip(i as int)[0] == all[i as int]);
        assert(all.skip(i as int).skip(1) == all.skip(i + 1));
        let line: String = text::trim(lines[i].as_str());
        i = i + 1;
        if !line.as_str().is_empty() {
            match text::split_once(line.as_str(), '=') {
                None => {
                    let mut m: String =
                        "invalid freshness line (expected key=value): ".to_owned();
                    m.append(line.as_str());
                    return Err(m);
                },
                Some((k, v)) => {
                    let key: String = text::trim(k.as_str());
                    let value: String = text::trim(v.as_str());
                    if key == "source_node_id".to_owned() {
                        proof {
                            fields =
                            LedgerFields { source_node_id: Some(value@), ..fields };
                        }
                        source_node_id = Some(value);
                    } else if key == "source_generation".to_owned() {
                        match field_number("source_generation", value.as_str()) {
                            Ok(n) => {
                                proof {
                                    fields =
                                    LedgerFields { source_generation: Some(n as nat), ..fields };
                                }
                                source_generation = Some(n);
                            },
                            Err(e) => {
                                return Err(e);
                            },
                        }
                    } else if key == "synced_at_secs".to_owned() {
                        match field_number("synced_at_secs", value.as_str()) {
                            Ok(n) => {
                                proof {
                                    fields =
                                    LedgerFields { synced_at_secs: Some(n as nat), ..fields };
                                }
                                synced_at_secs = Some(n);
                            },
                            Err(e) => {
                                return Err(e);
                            },
                        }
                    } else {
                        let mut m: String = "unknown freshness key: ".to_owned();
                        m.append(key.as_str());
                        return Err(m);
                    }
                },
            }
        }
    }
    assert(all.skip(i as int).len() == 0);
    let id: String = match source_node_id {
        None => {
            return Err("missing source_node_id".to_owned());
        },
        Some(id) => id,
    };
    if id.as_str().is_empty() {
        return Err("source_node_id must not be empty".to_owned());
    }
    match (source_generation, synced_at_secs) {
        (None, _) => Err("missing source_generation".to_owned()),
        (Some(_), None) => Err("missing synced_at_secs".to_owned()),
        (Some(source_generation), Some(synced_at_secs)) => Ok(
            FreshnessLedger { source_node_id: id, source_generation, synced_at_secs },
        ),
    }
}

/// The ledger that a file holds; none where it is missing, blank or says `none`.
pub open spec fn ledger_in_file(path: Seq<char>, content: Option<Seq<char>>) -> core::result::Result<
    Option<FreshnessView>,
    Seq<char>,
> {
    match content {
        None => Ok(None),
        Some(c) => {
            let t = text::trimmed(c);
            if t.len() == 0 || text::same_ignoring_case(t, "none"@) {
                Ok(None)
            } else {
                match ledger_meaning(t) {
                    Ok(l) => Ok(Some(l)),
                    Err(e) => Err("invalid freshness file "@ + path + ": "@ + e),
                }
            }
        },
    }
}

/// The ledger that the file at `path` holds, from its content where it exists.
pub fn read_freshness_ledger(path: &str, content: Option<&str>) -> (r: Result<
    Option<FreshnessLedger>,
>)
    ensures
        ({
            let meaning = ledger_in_file(
                path@,
                match content {
                    Some(c) => Some(c@),
                    None => None,
                },
            );
            match r {
                Ok(None) => meaning == Ok::<Option<FreshnessView>, Seq<char>>(None),
                Ok(Some(l)) => meaning == Ok::<Option<FreshnessView>, Seq<char>>(Some(l@)),
                Err(e) => meaning is Err && e.is_protocol(meaning->Err_0),
            }
        }),
{
    let t: String = match content {
        None => {
            return Ok(None);
        },
        Some(c) => text::trim(c),
    };
    if t.as_str().is_empty() || text::eq_ignore_ascii_case(t.as_str(), "none") {
        return Ok(None);
    }
    match parse_freshness_ledger(t.as_str()) {
        Ok(l) => Ok(Some(l)),
        Err(e) => {
            let mut m: String = "invalid freshness file ".to_owned();
            m.append(path);
            m.append(": ");
            m.append(e.as_str());
            Err(SyncError::Protocol(m))
        },
    }
}

/// The error of a ledger file that could not be read.
pub fn freshness_read_error(path: &str, error: &str) -> (r: SyncError)
    ensures
        r.is_protocol("failed reading freshness file "@ + path@ + ": "@ + error@),
{
    let mut m: String = "failed reading freshness file ".to_owned();
    m.append(path);
    m.append(": ");
    m.append(error);
    SyncError::Protocol(m)
}

/// A line sets the field of its key, whatever else is known, and whatever white space
/// is around it; a blank line sets none.
pub proof fn law_line_sets_its_field(
    f: LedgerFields,
    id: Seq<char>,
    n: u64,
    pre: Seq<char>,
    post: Seq<char>,
)
    requires
        text::all_spaces(pre),
        text::all_spaces(post),
        id.len() > 0,
        !text::is_space(id[0]),
        !text::is_space(id.last()),
    ensures
        after_line(f, pre + ("source_node_id="@ + id) + post) == Ok::<LedgerFields, Seq<char>>(
            LedgerFields { source_node_id: Some(id), ..f },
        ),
        after_line(f, pre + ("source_generation="@ + text::decimal(n as nat)) + post) == Ok::<
            LedgerFields,
            Seq<char>,
        >(LedgerFields { source_generation: Some(n as nat), ..f }),
        after_line(f, pre + ("synced_at_secs="@ + text::decimal(n as nat)) + post) == Ok::<
            LedgerFields,
            Seq<char>,
        >(LedgerFields { synced_at_secs: Some(n as nat), ..f }),
        after_line(f, pre) == Ok::<LedgerFields, Seq<char>>(f),
{
    reveal_strlit("source_node_id=");
    reveal_strlit("source_generation=");
    reveal_strlit("synced_at_secs=");
    reveal_strlit("source_node_id");
    reveal_strlit("source_generation");
    reveal_strlit("synced_at_secs");
    let none = Seq::<char>::empty();
    let d = text::decimal(n as nat);
    text::lemma_decimal_round_trip(n as nat);
    text::law_unsigned_number_is_read(n as nat, 0, u64::MAX as nat);
    assert(text::is_digit(d[0]) && text::is_digit(d.last()));
    text::lemma_trimmed_fixpoint(d);
    text::lemma_trimmed_fixpoint(id);
    assert("source_node_id="@ =~= "source_node_id"@ + seq!['=']);
    assert("source_generation="@ =~= "source_generation"@ + seq!['=']);
    assert("synced_at_secs="@ =~= "synced_at_secs"@ + seq!['=']);
    assert("source_node_id"@.len() != "source_generation"@.len());
    assert("synced_at_secs"@[1] == 'y' && "source_node_id"@[1] == 'o');
    assert("synced_at_secs"@.len() != "source_generation"@.len());
    lemma_ledger_line("source_node_id"@, id, pre, post);
    lemma_ledger_line("source_generation"@, d, pre, post);
    lemma_ledger_line("synced_at_secs"@, d, pre, post);
    assert(pre =~= pre + none + none);
    text::law_trimming_takes_the_surrounding_space(pre, none, none);
}

proof fn lemma_ledger_line(key: Seq<char>, value: Seq<char>, pre: Seq<char>, post: Seq<char>)
    requires
        text::all_spaces(pre),
        text::all_spaces(post),
        key.len() > 0,
        forall|i: int| 0 <= i < key.len() ==> (#[trigger] key[i]) != '=' && !text::is_space(key[i]),
        value.len() > 0,
        !text::is_space(value.last()),
    ensures
        text::trimmed(pre + (key + seq!['='] + value) + post) == key + seq!['='] + value,
        text::split_once_at(key + seq!['='] + value, '=') == Some((key, value)),
        text::trimmed(key) == key,
{
    let line = key + seq!['='] + value;
    assert(line[0] == key[0] && line.last() == value.last());
    text::law_trimming_takes_the_surrounding_space(pre, line, post);
    assert(!key.contains('='));
    text::law_split_once(key, value, '=');
    text::lemma_trimmed_fixpoint(key);
}

/// A line without `=`, with another key, or with something else than a number for a
/// number is an error.
pub proof fn law_other_ledger_lines_are_errors(f: LedgerFields, a: Seq<char>, c: Seq<char>)
    requires
        a.len() > 0 && !text::is_space(a[0]) && !text::is_space(a.last()),
        c.len() > 0 && !text::is_space(c[0]) && !text::is_space(c.last()),
        !a.contains('='),
    ensures
        after_line(f, a) is Err,
        a != "source_node_id"@ && a != "source_generation"@ && a != "synced_at_secs"@
            ==> after_line(f, a + seq!['='] + c) is Err,
        a == "source_generation"@ && text::unsigned_number(c, u64::MAX as nat) is None
            ==> after_line(f, a + seq!['='] + c) is Err,
        a == "synced_at_secs"@ && text::unsigned_number(c, u64::MAX as nat) is None ==> after_line(
            f,
            a + seq!['='] + c,
        ) is Err,
{
    reveal_strlit("source_node_id");
    reveal_strlit("source_generation");
    reveal_strlit("synced_at_secs");
    let none = Seq::<char>::empty();
    text::lemma_trimmed_fixpoint(a);
    text::lemma_trimmed_fixpoint(c);
    text::law_split_once(a, none, '=');
    let one = a + seq!['='] + c;
    assert(one[0] == a[0] && one.last() == c.last());
    text::lemma_trimmed_fixpoint(one);
    text::law_split_once(a, c, '=');
    assert("source_node_id"@.len() != "source_generation"@.len());
    assert("synced_at_secs"@[1] == 'y' && "source_node_id"@[1] == 'o');
    assert("synced_at_secs"@.len() != "source_generation"@.len());
}

/// Lines are read one after the other, each on top of those before, up to the first
/// error.
pub proof fn law_ledger_lines_are_read_in_order(
    f: LedgerFields,
    first: Seq<Seq<char>>,
    second: Seq<Seq<char>>,
)
    ensures
        after_lines(f, first + second) == match after_lines(f, first) {
            Ok(g) => after_lines(g, second),
            Err(e) => Err(e),
        },
        after_lines(f, Seq::empty()) == Ok::<LedgerFields, Seq<char>>(f),
    decreases first.len(),
{
    if first.len() == 0 {
        assert(first + second =~= second);
    } else {
        let all = first + second;
        assert(all[0] == first[0]);
        assert(all.skip(1) =~= first.skip(1) + second);
        match after_line(f, first[0]) {
            Err(e) => {},
            Ok(g) => {
                law_ledger_lines_are_read_in_order(g, first.skip(1), second);
            },
        }
    }
}

/// One line alone.
pub proof fn law_one_ledger_line(f: LedgerFields, line: Seq<char>)
    ensures
        after_lines(f, seq![line]) == after_line(f, line),
{
    reveal_with_fuel(after_lines, 2);
    assert(seq![line].skip(1) =~= Seq::empty());
}

/// A ledger needs all three fields, and a node that is named; with them it is just
/// these.
pub proof fn law_ledger_needs_all_fields(f: LedgerFields)
    ensures
        match ledger_of(f) {
            Ok(l) => f.source_node_id == Some(l.source_node_id) && f.source_generation == Some(
                l.source_generation,
            ) && f.synced_at_secs == Some(l.synced_at_secs) && l.source_node_id.len() > 0,
            Err(_) => f.source_node_id is None || f.source_node_id->0.len() == 0
                || f.source_generation is None || f.synced_at_secs is None,
        },
{
}

/// A ledger is read from the text of its three lines, in each of the orders.
pub proof fn law_ledger_text_is_read(ledger: FreshnessLedger, order: int)
    requires
        ledger.source_node_id@.len() > 0,
        !text::is_space(ledger.source_node_id@[0]),
        !text::is_space(ledger.source_node_id@.last()),
        !ledger.source_node_id@.contains('\n'),
    ensures
        ({
            let a = "source_node_id="@ + ledger.source_node_id@;
            let b = "source_generation="@ + text::decimal(ledger.source_generation as nat);
            let c = "synced_at_secs="@ + text::decimal(ledger.synced_at_secs as nat);
            let lines = if order == 0 {
                seq![a, b, c]
            } else if order == 1 {
                seq![a, c, b]
            } else if order == 2 {
                seq![b, a, c]
            } else if order == 3 {
                seq![b, c, a]
            } else if order == 4 {
                seq![c, a, b]
            } else {
                seq![c, b, a]
            };
            ledger_meaning(text::joined_with(lines, '\n')) == Ok::<FreshnessView, Seq<char>>(
                ledger@,
            )
        }),
{
    let a = "source_node_id="@ + ledger.source_node_id@;
    let b = "source_generation="@ + text::decimal(ledger.source_generation as nat);
    let c = "synced_at_secs="@ + text::decimal(ledger.synced_at_secs as nat);
    lemma_no_line_feed(ledger, a, b, c);
    if order == 0 {
        lemma_three_lines(ledger, a, b, c);
        text::law_joined_text_splits_again(seq![a, b, c], '\n');
    } else if order == 1 {
        lemma_three_lines(ledger, a, c, b);
        text::law_joined_text_splits_again(seq![a, c, b], '\n');
    } else if order == 2 {
        lemma_three_lines(ledger, b, a, c);
        text::law_joined_text_splits_again(seq![b, a, c], '\n');
    } else if order == 3 {
        lemma_three_lines(ledger, b, c, a);
        text::law_joined_text_splits_again(seq![b, c, a], '\n');
    } else if order == 4 {
        lemma_three_lines(ledger, c, a, b);
        text::law_joined_text_splits_again(seq![c, a, b], '\n');
    } else {
        lemma_three_lines(ledger, c, b, a);
        text::law_joined_text_splits_again(seq![c, b, a], '\n');
    }
}

proof fn lemma_no_line_feed(ledger: FreshnessLedger, a: Seq<char>, b: Seq<char>, c: Seq<char>)
    requires
        a == "source_node_id="@ + ledger.source_node_id@,
        b == "source_generation="@ + text::decimal(ledger.source_generation as nat),
        c == "synced_at_secs="@ + text::decimal(ledger.synced_at_secs as nat),
        !ledger.source_node_id@.contains('\n'),
    ensures
        !a.contains('\n'),
        !b.contains('\n'),
        !c.contains('\n'),
{
    reveal_strlit("source_node_id=");
    reveal_strlit("source_generation=");
    reveal_strlit("synced_at_secs=");
    let g = text::decimal(ledger.source_generation as nat);
    let t = text::decimal(ledger.synced_at_secs as nat);
    text::lemma_decimal_round_trip(ledger.source_generation as nat);
    text::lemma_decimal_round_trip(ledger.synced_at_secs as nat);
    assert forall|i: int| 0 <= i < a.len() implies a[i] != '\n' by {
        if i >= 15 {
            assert(a[i] == ledger.source_node_id@[i - 15]);
        }
    }
    assert forall|i: int| 0 <= i < b.len() implies b[i] != '\n' by {
        if i >= 18 {
            assert(b[i] == g[i - 18]);
            assert(text::is_digit(g[i - 18]));
        }
    }
    assert forall|i: int| 0 <= i < c.len() implies c[i] != '\n' by {
        if i >= 15 {
            assert(c[i] == t[i - 15]);
            assert(text::is_digit(t[i - 15]));
        }
    }
}

proof fn lemma_three_lines(ledger: FreshnessLedger, x: Seq<char>, y: Seq<char>, z: Seq<char>)
    requires
        ledger.source_node_id@.len() > 0,
        !text::is_space(ledger.source_node_id@[0]),
        !text::is_space(ledger.source_node_id@.last()),
        ({
            let a = "source_node_id="@ + ledger.source_node_id@;
            let b = "source_generation="@ + text::decimal(ledger.source_generation as nat);
            let c = "synced_at_secs="@ + text::decimal(ledger.synced_at_secs as nat);
            ||| x == a && y == b && z == c
            ||| x == a && y == c && z == b
            ||| x == b && y == a && z == c
            ||| x == b && y == c && z == a
            ||| x == c && y == a && z == b
            ||| x == c && y == b && z == a
        }),
    ensures
        after_lines(no_fields(), seq![x, y, z]) == Ok::<LedgerFields, Seq<char>>(
            LedgerFields {
                source_node_id: Some(ledger.source_node_id@),
                source_generation: Some(ledger.source_generation as nat),
                synced_at_secs: Some(ledger.synced_at_secs as nat),
            },
        ),
{
    let none = Seq::<char>::empty();
    let id = ledger.source_node_id@;
    let a = "source_node_id="@ + id;
    let b = "source_generation="@ + text::decimal(ledger.source_generation as nat);
    let c = "synced_at_secs="@ + text::decimal(ledger.synced_at_secs as nat);
    assert(none + a + none =~= a);
    assert(none + b + none =~= b);
    assert(none + c + none =~= c);
    assert forall|f: LedgerFields|
        {
            &&& #[trigger] after_line(f, a) == Ok::<LedgerFields, Seq<char>>(
                LedgerFields { source_node_id: Some(id), ..f },
            )
            &&& after_line(f, b) == Ok::<LedgerFields, Seq<char>>(
                LedgerFields { source_generation: Some(ledger.source_generation as nat), ..f },
            )
            &&& after_line(f, c) == Ok::<LedgerFields, Seq<char>>(
                LedgerFields { synced_at_secs: Some(ledger.synced_at_secs as nat), ..f },
            )
        } by {
        law_line_sets_its_field(f, id, ledger.source_generation, none, none);
        law_line_sets_its_field(f, id, ledger.synced_at_secs, none, none);
    }
    let f0 = no_fields();
    let f1 = after_line(f0, x)->Ok_0;
    let f2 = after_line(f1, y)->Ok_0;
    let g0 = after_line(f0, a);
    let g1 = after_line(f1, a);
    let g2 = after_line(f2, a);
    assert(seq![x, y, z].skip(1) =~= seq![y, z]);
    assert(seq![y, z].skip(1) =~= seq![z]);
    assert(seq![z].skip(1) =~= Seq::empty());
    reveal_with_fuel(after_lines, 4);
}

/// A file that is missing, blank or says `none`, in any letter case, holds no ledger;
/// any other holds the one of its text, and what is wrong with that is told with the
/// path.
pub proof fn law_ledger_file_holds_its_ledger(
    path: Seq<char>,
    pre: Seq<char>,
    record: Seq<char>,
    post: Seq<char>,
)
    requires
        text::all_spaces(pre),
        text::all_spaces(post),
        record.len() > 0 ==> !text::is_space(record[0]) && !text::is_space(record.last()),
    ensures
        ledger_in_file(path, None) == Ok::<Option<FreshnessView>, Seq<char>>(None),
        ({
            let found = ledger_in_file(path, Some(pre + record + post));
            if record.len() == 0 || text::ascii_lowered(record) == "none"@ {
                found == Ok::<Option<FreshnessView>, Seq<char>>(None)
            } else {
                match ledger_meaning(record) {
                    Ok(l) => found == Ok::<Option<FreshnessView>, Seq<char>>(Some(l)),
                    Err(e) => found == Err::<Option<FreshnessView>, Seq<char>>(
                        "invalid freshness file "@ + path + ": "@ + e,
                    ),
                }
            }
        }),
{
    text::law_trimming_takes_the_surrounding_space(pre, record, post);
    crate::kv_text::law_file_holds_its_record(pre, record, post);
}

} // verus!
