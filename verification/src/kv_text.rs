//! Minimal `key=value` text format shared by the small on-disk records (HA
//! lease file, freshness ledger file).
//!
//! Both record parsers are built on top of it, so that the two formats stay
//! consistent.
use vstd::prelude::*;

use crate::error::concat;
use crate::text;

verus! {

/// The values of a `key=value` text, by key. No key occurs twice.
#[derive(Debug)]
pub struct KvMap {
    entries: Vec<(String, String)>,
}

/// No two entries have the same key.
pub closed spec fn distinct_keys(entries: Seq<(String, String)>) -> bool {
    forall|i: int, j: int|
        0 <= i < j < entries.len() ==> (#[trigger] entries[i]).0@ != (#[trigger] entries[j]).0@
}

/// The map that a list of entries stands for.
pub closed spec fn entry_map(entries: Seq<(String, String)>) -> Map<Seq<char>, Seq<char>>
    decreases entries.len(),
{
    if entries.len() == 0 {
        Map::empty()
    } else {
        entry_map(entries.drop_last()).insert(entries.last().0@, entries.last().1@)
    }
}

impl View for KvMap {
    type V = Map<Seq<char>, Seq<char>>;

    closed spec fn view(&self) -> Map<Seq<char>, Seq<char>> {
        entry_map(self.entries@)
    }
}

proof fn lemma_entry_absent(entries: Seq<(String, String)>, key: Seq<char>)
    requires
        forall|i: int| 0 <= i < entries.len() ==> (#[trigger] entries[i]).0@ != key,
    ensures
        !entry_map(entries).contains_key(key),
    decreases entries.len(),
{
    if entries.len() > 0 {
        assert(entries.last() == entries[entries.len() - 1]);
        assert forall|i: int| 0 <= i < entries.drop_last().len() implies (
        #[trigger] entries.drop_last()[i]).0@ != key by {
            assert(entries.drop_last()[i] == entries[i]);
        }
        lemma_entry_absent(entries.drop_last(), key);
    }
}

/// The last entry for a key is the one that counts.
proof fn lemma_entry_last(entries: Seq<(String, String)>, at: int)
    requires
        0 <= at < entries.len(),
        forall|i: int| at < i < entries.len() ==> (#[trigger] entries[i]).0@ != entries[at].0@,
    ensures
        entry_map(entries).contains_key(entries[at].0@),
        entry_map(entries)[entries[at].0@] == entries[at].1@,
    decreases entries.len(),
{
    if at < entries.len() - 1 {
        assert(entries.last() == entries[entries.len() - 1]);
        let rest = entries.drop_last();
        assert(rest[at] == entries[at]);
        assert forall|i: int| at < i < rest.len() implies (#[trigger] rest[i]).0@ != rest[at].0@ by {
            assert(rest[i] == entries[i]);
        }
        lemma_entry_last(rest, at);
    }
}

/// Replacing the value of an entry replaces it in the map.
proof fn lemma_entry_update(entries: Seq<(String, String)>, at: int, entry: (String, String))
    requires
        0 <= at < entries.len(),
        distinct_keys(entries),
        entry.0@ == entries[at].0@,
    ensures
        distinct_keys(entries.update(at, entry)),
        entry_map(entries.update(at, entry)) == entry_map(entries).insert(entry.0@, entry.1@),
    decreases entries.len(),
{
    let updated = entries.update(at, entry);
    assert forall|i: int, j: int| 0 <= i < j < updated.len() implies (#[trigger] updated[i]).0@ != (
    #[trigger] updated[j]).0@ by {
        assert(entries[i].0@ != entries[j].0@);
    }
    if at == entries.len() - 1 {
        assert(updated.drop_last() == entries.drop_last());
        assert(entry_map(updated) == entry_map(entries).insert(entry.0@, entry.1@));
    } else {
        let rest = entries.drop_last();
        lemma_distinct_prefix(entries);
        assert(rest[at] == entries[at]);
        lemma_entry_update(rest, at, entry);
        assert(updated.drop_last() == rest.update(at, entry));
        assert(updated.last() == entries.last());
        assert(entries[at].0@ != entries[entries.len() - 1].0@);
        assert(entry_map(updated) == entry_map(entries).insert(entry.0@, entry.1@));
    }
}

proof fn lemma_distinct_prefix(entries: Seq<(String, String)>)
    requires
        entries.len() > 0,
        distinct_keys(entries),
    ensures
        distinct_keys(entries.drop_last()),
{
    let rest = entries.drop_last();
    assert forall|i: int, j: int| 0 <= i < j < rest.len() implies (#[trigger] rest[i]).0@ != (
    #[trigger] rest[j]).0@ by {
        assert(entries[i].0@ != entries[j].0@);
    }
}

/// The map has as many keys as there are entries.
proof fn lemma_entry_count(entries: Seq<(String, String)>)
    requires
        distinct_keys(entries),
    ensures
        entry_map(entries).dom().finite(),
        entry_map(entries).len() == entries.len(),
    decreases entries.len(),
{
    if entries.len() > 0 {
        let rest = entries.drop_last();
        let key = entries.last().0@;
        lemma_distinct_prefix(entries);
        lemma_entry_count(rest);
        assert forall|i: int| 0 <= i < rest.len() implies (#[trigger] rest[i]).0@ != key by {
            assert(entries[i].0@ != entries[entries.len() - 1].0@);
        }
        lemma_entry_absent(rest, key);
    }
}

impl KvMap {
    #[verifier::type_invariant]
    spec fn well_formed(self) -> bool {
        distinct_keys(self.entries@)
    }

    /// The map without entries.
    pub fn new() -> (r: KvMap)
        ensures
            r@ == Map::<Seq<char>, Seq<char>>::empty(),
    {
        KvMap { entries: Vec::new() }
    }

    /// The number of keys.
    pub fn len(&self) -> (r: usize)
        ensures
            self@.dom().finite(),
            r == self@.len(),
    {
        proof {
            use_type_invariant(self);
            lemma_entry_count(self.entries@);
        }
        self.entries.len()
    }

    /// Set the value of `key`, replacing an earlier one.
    pub fn insert(&mut self, key: String, value: String)
        ensures
            final(self)@ == old(self)@.insert(key@, value@),
    {
        proof {
            use_type_invariant(&*self);
        }
        let ghost before = self.entries@;
        let mut entries: Vec<(String, String)> = Vec::new();
        core::mem::swap(&mut entries, &mut self.entries);
        let mut i: usize = 0;
        while i < entries.len() && entries[i].0 != key
            invariant
                entries@ == before,
                i <= entries@.len(),
                forall|j: int| 0 <= j < i ==> (#[trigger] before[j]).0@ != key@,
            decreases entries@.len() - i,
        {
            i = i + 1;
        }
        if i < entries.len() {
            proof {
                lemma_entry_update(before, i as int, (key, value));
            }
            entries.set(i, (key, value));
        } else {
            entries.push((key, value));
            assert(entries@.drop_last() == before);
            assert(distinct_keys(entries@));
        }
        self.entries = entries;
    }

    /// The value of `key`.
    pub fn get(&self, key: &str) -> (r: Option<&String>)
        ensures
            match r {
                Some(v) => self@.contains_key(key@) && self@[key@] == v@,
                None => !self@.contains_key(key@),
            },
    {
        proof {
            use_type_invariant(self);
        }
        let wanted: String = key.to_owned();
        let mut i: usize = 0;
        while i < self.entries.len()
            invariant
                i <= self.entries@.len(),
                distinct_keys(self.entries@),
                wanted@ == key@,
                forall|j: int| 0 <= j < i ==> (#[trigger] self.entries@[j]).0@ != key@,
            decreases self.entries@.len() - i,
        {
            if self.entries[i].0 == wanted {
                proof {
                    lemma_entry_last(self.entries@, i as int);
                }
                return Some(&self.entries[i].1);
            }
            i = i + 1;
        }
        proof {
            lemma_entry_absent(self.entries@, key@);
        }
        None
    }
}

/// The views of a sequence of string slices.
pub open spec fn str_views(v: Seq<&str>) -> Seq<Seq<char>> {
    Seq::new(v.len(), |i: int| v[i]@)
}

/// The error for a line that is not of the form `key=value`.
pub open spec fn bad_line(subject: Seq<char>, line: Seq<char>) -> Seq<char> {
    "invalid "@ + subject + " line (expected key=value): "@ + line
}

/// The error for a key that the record does not have.
pub open spec fn unknown_key(subject: Seq<char>, key: Seq<char>) -> Seq<char> {
    "unknown "@ + subject + " key: "@ + key
}

/// What one line of the text says: nothing, a key with its value, or an error.
///
/// A line that is not blank holds exactly one `=`, between a known key and
/// its value, each of which white space may surround.
pub open spec fn line_meaning(
    subject: Seq<char>,
    raw_line: Seq<char>,
    allowed: Seq<Seq<char>>,
) -> core::result::Result<Option<(Seq<char>, Seq<char>)>, Seq<char>> {
    let line = text::trimmed(raw_line);
    if line.len() == 0 {
        Ok(None)
    } else {
        match text::split_once_at(line, '=') {
            None => Err(bad_line(subject, line)),
            Some((key, value)) => if value.contains('=') {
                Err(bad_line(subject, line))
            } else if !allowed.contains(text::trimmed(key)) {
                Err(unknown_key(subject, text::trimmed(key)))
            } else {
                Ok(Some((text::trimmed(key), text::trimmed(value))))
            },
        }
    }
}

/// What the lines say together: the first error, or else the value that the
/// last line for each key gives it, on top of `known`.
pub open spec fn lines_meaning(
    subject: Seq<char>,
    lines: Seq<Seq<char>>,
    allowed: Seq<Seq<char>>,
    known: Map<Seq<char>, Seq<char>>,
) -> core::result::Result<Map<Seq<char>, Seq<char>>, Seq<char>>
    decreases lines.len(),
{
    if lines.len() == 0 {
        Ok(known)
    } else {
        match line_meaning(subject, lines[0], allowed) {
            Err(e) => Err(e),
            Ok(None) => lines_meaning(subject, lines.skip(1), allowed, known),
            Ok(Some((key, value))) => lines_meaning(
                subject,
                lines.skip(1),
                allowed,
                known.insert(key, value),
            ),
        }
    }
}

/// What a whole `key=value` text says.
pub open spec fn kv_meaning(
    subject: Seq<char>,
    input: Seq<char>,
    allowed: Seq<Seq<char>>,
) -> core::result::Result<Map<Seq<char>, Seq<char>>, Seq<char>> {
    lines_meaning(subject, text::pieces(input, '\n'), allowed, Map::empty())
}

/// Whether `key` is one of `allowed`.
fn is_allowed(key: &String, allowed: &[&str]) -> (r: bool)
    ensures
        r == str_views(allowed@).contains(key@),
{
    let mut i: usize = 0;
    while i < allowed.len()
        invariant
            i <= allowed@.len(),
            forall|j: int| 0 <= j < i ==> (#[trigger] allowed@[j])@ != key@,
        decreases allowed@.len() - i,
    {
        if allowed[i].to_owned() == *key {
            assert(str_views(allowed@)[i as int] == key@);
            return true;
        }
        i = i + 1;
    }
    assert forall|j: int| 0 <= j < str_views(allowed@).len() implies str_views(allowed@)[j]
        != key@ by {
        assert(allowed@[j]@ != key@);
    }
    false
}

/// Read one line of a `key=value` text.
fn parse_line(subject: &str, raw_line: &str, allowed_keys: &[&str]) -> (r: core::result::Result<
    Option<(String, String)>,
    String,
>)
    ensures
        match r {
            Ok(None) => line_meaning(subject@, raw_line@, str_views(allowed_keys@)) == Ok::<
                Option<(Seq<char>, Seq<char>)>,
                Seq<char>,
            >(None),
            Ok(Some((k, v))) => line_meaning(subject@, raw_line@, str_views(allowed_keys@)) == Ok::<
                Option<(Seq<char>, Seq<char>)>,
                Seq<char>,
            >(Some((k@, v@))),
            Err(e) => line_meaning(subject@, raw_line@, str_views(allowed_keys@)) == Err::<
                Option<(Seq<char>, Seq<char>)>,
                Seq<char>,
            >(e@),
        },
{
    let line: String = text::trim(raw_line);
    if line.as_str().is_empty() {
        return Ok(None);
    }
    let (key, value): (String, String) = match text::split_once(line.as_str(), '=') {
        None => {
            return Err(bad_line_text(subject, line.as_str()));
        },
        Some(pair) => pair,
    };
    if text::contains_char(value.as_str(), '=') {
        return Err(bad_line_text(subject, line.as_str()));
    }
    let key: String = text::trim(key.as_str());
    if !is_allowed(&key, allowed_keys) {
        let mut e: String = "unknown ".to_owned();
        e.append(subject);
        e.append(" key: ");
        e.append(key.as_str());
        return Err(e);
    }
    Ok(Some((key, text::trim(value.as_str()))))
}

fn bad_line_text(subject: &str, line: &str) -> (r: String)
    ensures
        r@ == bad_line(subject@, line@),
{
    let mut e: String = "invalid ".to_owned();
    e.append(subject);
    e.append(" line (expected key=value): ");
    e.append(line);
    e
}

/// Parse `key=value` lines (blank lines ignored) into a map.
///
/// Each non-blank line must contain exactly one `=`, and its key must be one
/// of `allowed_keys`; anything else is a format error naming the offending
/// line or key. `subject` (e.g. `"lease"`, `"freshness"`) is folded into the
/// error text.
pub fn parse_kv_lines(subject: &str, input: &str, allowed_keys: &[&str]) -> (r:
    core::result::Result<KvMap, String>)
    ensures
        match r {
            Ok(m) => kv_meaning(subject@, input@, str_views(allowed_keys@)) == Ok::<
                Map<Seq<char>, Seq<char>>,
                Seq<char>,
            >(m@),
            Err(e) => kv_meaning(subject@, input@, str_views(allowed_keys@)) == Err::<
                Map<Seq<char>, Seq<char>>,
                Seq<char>,
            >(e@),
        },
{
    let lines: Vec<String> = text::split_all(input, '\n');
    let mut map: KvMap = KvMap::new();
    let mut i: usize = 0;
    let ghost all = text::views(lines@);
    let ghost allowed = str_views(allowed_keys@);
    assert(all.skip(0) == all);
    while i < lines.len()
        invariant
            i <= lines@.len(),
            all == text::views(lines@),
            all == text::pieces(input@, '\n'),
            allowed == str_views(allowed_keys@),
            lines_meaning(subject@, all, allowed, Map::empty()) == lines_meaning(
                subject@,
                all.skip(i as int),
                allowed,
                map@,
            ),
        decreases lines@.len() - i,
    {
        assert(all.skip(i as int)[0] == lines@[i as int]@);
        assert(all.skip(i as int).skip(1) == all.skip(i + 1));
        match parse_line(subject, lines[i].as_str(), allowed_keys) {
            Err(e) => {
                return Err(e);
            },
            Ok(None) => {},
            Ok(Some((key, value))) => {
                map.insert(key, value);
            },
        }
        i = i + 1;
    }
    Ok(map)
}

/// The required `u64` value of a key, or why there is none.
pub open spec fn u64_field(map: Map<Seq<char>, Seq<char>>, key: Seq<char>) -> core::result::Result<
    nat,
    Seq<char>,
> {
    if !map.contains_key(key) {
        Err("missing "@ + key)
    } else {
        match text::unsigned_number(map[key], u64::MAX as nat) {
            Some(n) => Ok(n),
            None => Err("invalid "@ + key + ": "@ + map[key]),
        }
    }
}

/// The required, non-empty value of a key, or why there is none.
pub open spec fn text_field(
    map: Map<Seq<char>, Seq<char>>,
    key: Seq<char>,
) -> core::result::Result<Seq<char>, Seq<char>> {
    if !map.contains_key(key) {
        Err("missing "@ + key)
    } else if map[key].len() == 0 {
        Err(key + " must not be empty"@)
    } else {
        Ok(map[key])
    }
}

/// Look up a required `u64` field by key.
pub fn require_u64(map: &KvMap, key: &str) -> (r: core::result::Result<u64, String>)
    ensures
        match r {
            Ok(n) => u64_field(map@, key@) == Ok::<nat, Seq<char>>(n as nat),
            Err(e) => u64_field(map@, key@) == Err::<nat, Seq<char>>(e@),
        },
{
    match map.get(key) {
        None => Err(concat("missing ", key)),
        Some(raw) => match text::parse_unsigned(raw.as_str(), u64::MAX) {
            Some(n) => Ok(n),
            None => {
                let mut e: String = concat("invalid ", key);
                e.append(": ");
                e.append(raw.as_str());
                Err(e)
            },
        },
    }
}

/// Look up a required, non-empty string field by key.
pub fn require_non_empty(map: &KvMap, key: &str) -> (r: core::result::Result<String, String>)
    ensures
        match r {
            Ok(s) => text_field(map@, key@) == Ok::<Seq<char>, Seq<char>>(s@),
            Err(e) => text_field(map@, key@) == Err::<Seq<char>, Seq<char>>(e@),
        },
{
    match map.get(key) {
        None => Err(concat("missing ", key)),
        Some(raw) => if raw.as_str().is_empty() {
            Err(concat(key, " must not be empty"))
        } else {
            Ok(raw.clone())
        },
    }
}

/// The record that the content of a file holds: none where the content is
/// blank or says `none`, in any case of letters.
pub open spec fn record_text(content: Seq<char>) -> Option<Seq<char>> {
    let t = text::trimmed(content);
    if t.len() == 0 || text::same_ignoring_case(t, "none"@) {
        None
    } else {
        Some(t)
    }
}

/// The record text of an optional `key=value` file, from its content where the
/// file exists: a missing file, blank content and the literal text `none` all
/// mean that there is no record.
pub fn read_optional_kv_text(content: Option<&str>) -> (r: Option<String>)
    ensures
        match content {
            None => r is None,
            Some(c) => match r {
                Some(t) => record_text(c@) == Some(t@),
                None => record_text(c@) is None,
            },
        },
{
    match content {
        None => None,
        Some(c) => {
            let t: String = text::trim(c);
            if t.as_str().is_empty() || text::eq_ignore_ascii_case(t.as_str(), "none") {
                None
            } else {
                Some(t)
            }
        },
    }
}

// ---------------------------------------------------------------------------
// What a text says
// ---------------------------------------------------------------------------

/// A line says that a known key has a value, whatever white space is around both.
pub proof fn law_line_gives_the_value_of_its_key(
    subject: Seq<char>,
    allowed: Seq<Seq<char>>,
    key: Seq<char>,
    value: Seq<char>,
    s1: Seq<char>,
    s2: Seq<char>,
    s3: Seq<char>,
    s4: Seq<char>,
)
    requires
        text::all_spaces(s1),
        text::all_spaces(s2),
        text::all_spaces(s3),
        text::all_spaces(s4),
        key.len() > 0,
        !text::is_space(key[0]),
        !text::is_space(key.last()),
        !key.contains('='),
        value.len() > 0 ==> !text::is_space(value[0]) && !text::is_space(value.last()),
        !value.contains('='),
        allowed.contains(key),
    ensures
        line_meaning(subject, s1 + (key + s2 + seq!['='] + s3 + value) + s4, allowed) == Ok::<
            Option<(Seq<char>, Seq<char>)>,
            Seq<char>,
        >(Some((key, value))),
{
    let none = Seq::<char>::empty();
    let head = key + s2;
    assert forall|i: int| 0 <= i < head.len() implies head[i] != '=' by {
        if i >= key.len() {
            assert(text::is_space(s2[i - key.len()]));
        }
    }
    assert(none + key + s2 =~= head);
    text::law_trimming_takes_the_surrounding_space(none, key, s2);
    if value.len() > 0 {
        let tail = s3 + value;
        let line = head + seq!['='] + tail;
        assert(key + s2 + seq!['='] + s3 + value =~= line);
        assert(line[0] == key[0]);
        assert(line.last() == value.last());
        text::law_trimming_takes_the_surrounding_space(s1, line, s4);
        text::law_split_once(head, tail, '=');
        assert forall|i: int| 0 <= i < tail.len() implies tail[i] != '=' by {
            if i < s3.len() {
                assert(text::is_space(s3[i]));
            } else {
                assert(tail[i] == value[i - s3.len()]);
            }
        }
        assert(s3 + value + none =~= tail);
        text::law_trimming_takes_the_surrounding_space(s3, value, none);
    } else {
        let line = head + seq!['='] + none;
        let post = s3 + s4;
        assert forall|i: int| 0 <= i < post.len() implies text::is_space(#[trigger] post[i]) by {
            if i < s3.len() {
                assert(post[i] == s3[i]);
            } else {
                assert(post[i] == s4[i - s3.len()]);
            }
        }
        assert(s1 + (key + s2 + seq!['='] + s3 + value) + s4 =~= s1 + line + post);
        assert(line[0] == key[0]);
        assert(line.last() == '=');
        text::law_trimming_takes_the_surrounding_space(s1, line, post);
        text::law_split_once(head, none, '=');
        assert(none + none + none =~= none);
        text::law_trimming_takes_the_surrounding_space(none, none, none);
        assert(value =~= none);
    }
}

/// A blank line says nothing; a line without `=` or with two is an error, and so is
/// one with a key that is not known.
pub proof fn law_other_lines_are_errors(
    subject: Seq<char>,
    allowed: Seq<Seq<char>>,
    blank: Seq<char>,
    a: Seq<char>,
    b: Seq<char>,
    c: Seq<char>,
)
    requires
        text::all_spaces(blank),
        a.len() > 0 && !text::is_space(a[0]) && !text::is_space(a.last()),
        c.len() > 0 && !text::is_space(c.last()),
        !a.contains('='),
    ensures
        line_meaning(subject, blank, allowed) == Ok::<Option<(Seq<char>, Seq<char>)>, Seq<char>>(
            None,
        ),
        line_meaning(subject, a, allowed) == Err::<Option<(Seq<char>, Seq<char>)>, Seq<char>>(
            bad_line(subject, a),
        ),
        line_meaning(subject, a + seq!['='] + b + seq!['='] + c, allowed) == Err::<
            Option<(Seq<char>, Seq<char>)>,
            Seq<char>,
        >(bad_line(subject, a + seq!['='] + b + seq!['='] + c)),
        !allowed.contains(a) && !c.contains('=') ==> line_meaning(
            subject,
            a + seq!['='] + c,
            allowed,
        ) == Err::<Option<(Seq<char>, Seq<char>)>, Seq<char>>(unknown_key(subject, a)),
{
    let none = Seq::<char>::empty();
    assert(blank =~= blank + none + none);
    text::law_trimming_takes_the_surrounding_space(blank, none, none);
    text::lemma_trimmed_fixpoint(a);
    text::law_split_once(a, none, '=');
    let two = a + seq!['='] + b + seq!['='] + c;
    let rest = b + seq!['='] + c;
    assert(two =~= a + seq!['='] + rest);
    assert(two[0] == a[0] && two.last() == c.last());
    text::lemma_trimmed_fixpoint(two);
    text::law_split_once(a, rest, '=');
    assert(rest[b.len() as int] == '=');
    assert(rest.contains('='));
    let one = a + seq!['='] + c;
    assert(one[0] == a[0] && one.last() == c.last());
    text::lemma_trimmed_fixpoint(one);
    text::law_split_once(a, c, '=');
}

/// Lines are read one after the other: what follows is read on top of what came
/// before, so that the last line for a key counts, and the first error ends it.
pub proof fn law_lines_are_read_in_order(
    subject: Seq<char>,
    first: Seq<Seq<char>>,
    second: Seq<Seq<char>>,
    allowed: Seq<Seq<char>>,
    known: Map<Seq<char>, Seq<char>>,
)
    ensures
        lines_meaning(subject, first + second, allowed, known) == match lines_meaning(
            subject,
            first,
            allowed,
            known,
        ) {
            Ok(m) => lines_meaning(subject, second, allowed, m),
            Err(e) => Err(e),
        },
        lines_meaning(subject, Seq::empty(), allowed, known) == Ok::<
            Map<Seq<char>, Seq<char>>,
            Seq<char>,
        >(known),
    decreases first.len(),
{
    if first.len() == 0 {
        assert(first + second =~= second);
    } else {
        let all = first + second;
        assert(all[0] == first[0]);
        assert(all.skip(1) =~= first.skip(1) + second);
        match line_meaning(subject, first[0], allowed) {
            Err(e) => {},
            Ok(None) => {
                law_lines_are_read_in_order(subject, first.skip(1), second, allowed, known);
            },
            Ok(Some((key, value))) => {
                law_lines_are_read_in_order(
                    subject,
                    first.skip(1),
                    second,
                    allowed,
                    known.insert(key, value),
                );
            },
        }
    }
}

/// One line on top of what is known: it sets just its key, says nothing, or is an
/// error.
pub proof fn law_one_line_sets_one_key(
    subject: Seq<char>,
    line: Seq<char>,
    allowed: Seq<Seq<char>>,
    known: Map<Seq<char>, Seq<char>>,
)
    ensures
        lines_meaning(subject, seq![line], allowed, known) == match line_meaning(
            subject,
            line,
            allowed,
        ) {
            Ok(Some((key, value))) => Ok::<Map<Seq<char>, Seq<char>>, Seq<char>>(
                known.insert(key, value),
            ),
            Ok(None) => Ok(known),
            Err(e) => Err(e),
        },
{
    reveal_with_fuel(lines_meaning, 2);
    assert(seq![line].skip(1) =~= Seq::empty());
}

/// The number of a key is read where the key has the decimal form of one; a missing
/// key is told to be missing, and any other value is refused.
pub proof fn law_number_field_is_read(map: Map<Seq<char>, Seq<char>>, key: Seq<char>, n: u64)
    ensures
        u64_field(map.insert(key, text::decimal(n as nat)), key) == Ok::<nat, Seq<char>>(n as nat),
        !map.contains_key(key) ==> u64_field(map, key) == Err::<nat, Seq<char>>("missing "@ + key),
        map.contains_key(key) && text::unsigned_number(map[key], u64::MAX as nat) is None
            ==> u64_field(map, key) == Err::<nat, Seq<char>>("invalid "@ + key + ": "@ + map[key]),
{
    text::law_unsigned_number_is_read(n as nat, 0, u64::MAX as nat);
}

/// The text of a key is read where there is one; a missing key and an empty text are
/// refused, each for itself.
pub proof fn law_text_field_is_read(
    map: Map<Seq<char>, Seq<char>>,
    key: Seq<char>,
    value: Seq<char>,
)
    ensures
        value.len() > 0 ==> text_field(map.insert(key, value), key) == Ok::<Seq<char>, Seq<char>>(
            value,
        ),
        text_field(map.insert(key, Seq::empty()), key) == Err::<Seq<char>, Seq<char>>(
            key + " must not be empty"@,
        ),
        !map.contains_key(key) ==> text_field(map, key) == Err::<Seq<char>, Seq<char>>(
            "missing "@ + key,
        ),
{
}

/// A file holds no record where it is blank or says `none`, in any letter case, and
/// else what stands in it without the white space around it.
pub proof fn law_file_holds_its_record(pre: Seq<char>, record: Seq<char>, post: Seq<char>)
    requires
        text::all_spaces(pre),
        text::all_spaces(post),
        record.len() > 0 ==> !text::is_space(record[0]) && !text::is_space(record.last()),
    ensures
        record_text(pre + record + post) == if record.len() == 0 || text::ascii_lowered(record)
            == "none"@ {
            None
        } else {
            Some(record)
        },
{
    reveal_strlit("none");
    text::law_trimming_takes_the_surrounding_space(pre, record, post);
    if text::same_ignoring_case(record, "none"@) {
        assert(text::ascii_lowered(record) =~= "none"@);
    }
    if text::ascii_lowered(record) == "none"@ {
        let low = text::ascii_lowered(record);
        assert(low.len() == record.len());
        assert forall|i: int| 0 <= i < record.len() implies text::ascii_lower(#[trigger] record[i])
            == text::ascii_lower("none"@[i]) by {
            assert(low[i] == "none"@[i]);
        }
    }
}

/// A text of lines is read line by line.
pub proof fn law_text_is_read_line_by_line(
    subject: Seq<char>,
    lines: Seq<Seq<char>>,
    allowed: Seq<Seq<char>>,
)
    requires
        lines.len() > 0,
        forall|k: int| 0 <= k < lines.len() ==> !(#[trigger] lines[k]).contains('\n'),
    ensures
        kv_meaning(subject, text::joined_with(lines, '\n'), allowed) == lines_meaning(
            subject,
            lines,
            allowed,
            Map::empty(),
        ),
{
    text::law_joined_text_splits_again(lines, '\n');
}

/// The errors name the subject and the line or the key.
pub proof fn law_line_errors_name_the_culprit(subject: Seq<char>, s: Seq<char>)
    ensures
        bad_line(subject, s) == "invalid "@ + subject + " line (expected key=value): "@ + s,
        unknown_key(subject, s) == "unknown "@ + subject + " key: "@ + s,
{
}

} // verus!
