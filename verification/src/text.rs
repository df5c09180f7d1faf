//! Character-level text functions with exact contracts.
use vstd::prelude::*;

verus! {

/// `String::push` appends the given character to the end of the string.
pub assume_specification[ String::push ](s: &mut String, c: char)
    ensures
        final(s)@ == old(s)@.push(c),
;

/// The characters with the Unicode `White_Space` property.
pub open spec fn is_space(c: char) -> bool {
    ||| 0x09 <= c as u32 <= 0x0d
    ||| c as u32 == 0x20
    ||| c as u32 == 0x85
    ||| c as u32 == 0xa0
    ||| c as u32 == 0x1680
    ||| 0x2000 <= c as u32 <= 0x200a
    ||| c as u32 == 0x2028
    ||| c as u32 == 0x2029
    ||| c as u32 == 0x202f
    ||| c as u32 == 0x205f
    ||| c as u32 == 0x3000
}

/// Whether `c` has the Unicode `White_Space` property.
pub fn space(c: char) -> (r: bool)
    ensures
        r == is_space(c),
{
    let n: u32 = c as u32;
    (0x09 <= n && n <= 0x0d) || n == 0x20 || n == 0x85 || n == 0xa0 || n == 0x1680 || (0x2000 <= n
        && n <= 0x200a) || n == 0x2028 || n == 0x2029 || n == 0x202f || n == 0x205f || n == 0x3000
}

/// The characters of `s`, in order.
pub fn chars_of(s: &str) -> (r: Vec<char>)
    ensures
        r@ == s@,
{
    let mut v: Vec<char> = Vec::new();
    for c in it: s.chars()
        invariant
            v@ == it.seq().take(it.index() as int),
            it.seq() == s@,
    {
        v.push(c);
    }
    v
}

/// The text that the characters `v[from..to]` spell.
pub fn string_of(v: &Vec<char>, from: usize, to: usize) -> (r: String)
    requires
        from <= to <= v@.len(),
    ensures
        r@ == v@.subrange(from as int, to as int),
{
    let mut s: String = String::new();
    let mut i: usize = from;
    while i < to
        invariant
            from <= i <= to <= v@.len(),
            s@ == v@.subrange(from as int, i as int),
        decreases to - i,
    {
        s.push(v[i]);
        i = i + 1;
    }
    s
}


// ---------------------------------------------------------------------------
// Trimming
// ---------------------------------------------------------------------------

/// `s` without its leading white space.
pub open spec fn trim_start(s: Seq<char>) -> Seq<char>
    decreases s.len(),
{
    if s.len() > 0 && is_space(s[0]) {
        trim_start(s.skip(1))
    } else {
        s
    }
}

/// `s` without its trailing white space.
pub open spec fn trim_end(s: Seq<char>) -> Seq<char>
    decreases s.len(),
{
    if s.len() > 0 && is_space(s.last()) {
        trim_end(s.drop_last())
    } else {
        s
    }
}

/// `s` without its leading and trailing white space.
pub open spec fn trimmed(s: Seq<char>) -> Seq<char> {
    trim_end(trim_start(s))
}

/// `s` without its leading and trailing white space.
pub fn trim(s: &str) -> (r: String)
    ensures
        r@ == trimmed(s@),
{
    let v: Vec<char> = chars_of(s);
    let n: usize = v.len();
    let mut i: usize = 0;
    assert(v@.skip(0) == v@);
    while i < n && space(v[i])
        invariant
            i <= n == v@.len(),
            v@ == s@,
            trim_start(v@) == trim_start(v@.skip(i as int)),
        decreases n - i,
    {
        assert(v@.skip(i as int).skip(1) == v@.skip(i as int + 1));
        i = i + 1;
    }
    assert(trim_start(v@) == v@.skip(i as int));
    let mut j: usize = n;
    assert(v@.subrange(i as int, j as int) == v@.skip(i as int));
    while i < j && space(v[j - 1])
        invariant
            i <= j <= n == v@.len(),
            trim_end(v@.skip(i as int)) == trim_end(v@.subrange(i as int, j as int)),
        decreases j,
    {
        assert(v@.subrange(i as int, j as int).drop_last() == v@.subrange(i as int, j - 1));
        j = j - 1;
    }
    string_of(&v, i, j)
}

/// Trimming text that neither starts nor ends with white space changes nothing.
pub proof fn lemma_trimmed_fixpoint(s: Seq<char>)
    requires
        s.len() > 0 ==> !is_space(s[0]) && !is_space(s.last()),
    ensures
        trimmed(s) == s,
{
}

/// What trimming leaves neither starts nor ends with white space.
pub proof fn lemma_trimmed_ends(s: Seq<char>)
    ensures
        trimmed(s).len() > 0 ==> !is_space(trimmed(s)[0]) && !is_space(trimmed(s).last()),
        trimmed(trimmed(s)) == trimmed(s),
{
    lemma_trim_start_head(s);
    lemma_trim_end_keeps_head(trim_start(s));
    lemma_trimmed_fixpoint(trimmed(s));
}

proof fn lemma_trim_start_head(s: Seq<char>)
    ensures
        trim_start(s).len() > 0 ==> !is_space(trim_start(s)[0]),
    decreases s.len(),
{
    if s.len() > 0 && is_space(s[0]) {
        lemma_trim_start_head(s.skip(1));
    }
}

proof fn lemma_trim_end_keeps_head(s: Seq<char>)
    ensures
        trim_end(s).len() > 0 ==> trim_end(s)[0] == s[0] && !is_space(trim_end(s).last()),
    decreases s.len(),
{
    if s.len() > 0 && is_space(s.last()) {
        lemma_trim_end_keeps_head(s.drop_last());
    }
}

// ---------------------------------------------------------------------------
// Searching and splitting
// ---------------------------------------------------------------------------

/// The index of the first `c` in `s`, or the length of `s` where there is none.
pub open spec fn first_index(s: Seq<char>, c: char) -> int
    decreases s.len(),
{
    if s.len() == 0 || s[0] == c {
        0
    } else {
        1 + first_index(s.skip(1), c)
    }
}

/// The text before and after the first `c` in `s`, where there is one.
pub open spec fn split_once_at(s: Seq<char>, c: char) -> Option<(Seq<char>, Seq<char>)> {
    let i = first_index(s, c);
    if i < s.len() {
        Some((s.take(i), s.skip(i + 1)))
    } else {
        None
    }
}

pub proof fn lemma_first_index(s: Seq<char>, c: char, i: int)
    requires
        0 <= i <= s.len(),
        forall|j: int| 0 <= j < i ==> s[j] != c,
        i < s.len() ==> s[i] == c,
    ensures
        first_index(s, c) == i,
    decreases s.len(),
{
    if i > 0 {
        lemma_first_index(s.skip(1), c, i - 1);
    }
}

/// The position of the first `c` in `v[from..]`, or the length of `v`.
pub fn find_from(v: &Vec<char>, from: usize, c: char) -> (r: usize)
    requires
        from <= v@.len(),
    ensures
        from <= r <= v@.len(),
        r - from == first_index(v@.skip(from as int), c),
        forall|j: int| from <= j < r ==> v@[j] != c,
        r < v@.len() ==> v@[r as int] == c,
{
    let mut i: usize = from;
    while i < v.len() && v[i] != c
        invariant
            from <= i <= v@.len(),
            forall|j: int| from <= j < i ==> v@[j] != c,
        decreases v@.len() - i,
    {
        i = i + 1;
    }
    proof {
        lemma_first_index(v@.skip(from as int), c, i - from);
    }
    i
}

/// The text before and after the first `c` in `s`, where there is one.
pub fn split_once(s: &str, c: char) -> (r: Option<(String, String)>)
    ensures
        match r {
            Some((a, b)) => split_once_at(s@, c) == Some((a@, b@)),
            None => split_once_at(s@, c) is None,
        },
{
    let v: Vec<char> = chars_of(s);
    let i: usize = find_from(&v, 0, c);
    assert(v@.skip(0) == v@);
    if i < v.len() {
        let a: String = string_of(&v, 0, i);
        let b: String = string_of(&v, i + 1, v.len());
        assert(a@ == s@.take(i as int));
        assert(b@ == s@.skip(i + 1));
        Some((a, b))
    } else {
        None
    }
}

/// The views of a sequence of strings.
pub open spec fn views(v: Seq<String>) -> Seq<Seq<char>> {
    Seq::new(v.len(), |i: int| v[i]@)
}

/// The view of an optional string.
pub open spec fn opt_view(s: Option<String>) -> Option<Seq<char>> {
    match s {
        Some(t) => Some(t@),
        None => None,
    }
}

/// The pieces of `s` between the occurrences of `c`.
pub open spec fn pieces(s: Seq<char>, c: char) -> Seq<Seq<char>>
    decreases s.len(),
{
    let i = first_index(s, c);
    if 0 <= i < s.len() {
        seq![s.take(i)] + pieces(s.skip(i + 1), c)
    } else {
        seq![s]
    }
}

/// The pieces of `s` between the occurrences of `c`.
pub fn split_all(s: &str, c: char) -> (r: Vec<String>)
    ensures
        views(r@) == pieces(s@, c),
{
    let v: Vec<char> = chars_of(s);
    let mut out: Vec<String> = Vec::new();
    let mut from: usize = 0;
    assert(v@.skip(0) == v@);
    assert(views(out@) + pieces(v@, c) == pieces(v@, c));
    loop
        invariant
            from <= v@.len(),
            v@ == s@,
            pieces(s@, c) == views(out@) + pieces(v@.skip(from as int), c),
        decreases v@.len() - from,
    {
        let i: usize = find_from(&v, from, c);
        let ghost rest = v@.skip(from as int);
        let ghost before = views(out@);
        let piece: String = string_of(&v, from, i);
        assert(piece@ == rest.take(i - from));
        out.push(piece);
        assert(views(out@) == before.push(piece@));
        if i < v.len() {
            assert(rest.skip(i - from + 1) == v@.skip(i + 1));
            assert(views(out@) + pieces(v@.skip(i + 1), c) == before + (seq![piece@] + pieces(
                v@.skip(i + 1),
                c,
            )));
            from = i + 1;
        } else {
            assert(rest.take(i - from) == rest);
            assert(views(out@) == before + seq![piece@]);
            return out;
        }
    }
}

/// The number of leading characters of `s` that are not white space.
pub open spec fn word_len(s: Seq<char>) -> int
    decreases s.len(),
{
    if s.len() == 0 || is_space(s[0]) {
        0
    } else {
        1 + word_len(s.skip(1))
    }
}

pub proof fn lemma_word_len(s: Seq<char>, i: int)
    requires
        0 <= i <= s.len(),
        forall|j: int| 0 <= j < i ==> !is_space(s[j]),
        i < s.len() ==> is_space(s[i]),
    ensures
        word_len(s) == i,
    decreases s.len(),
{
    if i > 0 {
        lemma_word_len(s.skip(1), i - 1);
    }
}

proof fn lemma_trim_start_len(s: Seq<char>)
    ensures
        trim_start(s).len() <= s.len(),
    decreases s.len(),
{
    if s.len() > 0 && is_space(s[0]) {
        lemma_trim_start_len(s.skip(1));
    }
}

/// The maximal runs of `s` that hold no white space.
pub open spec fn words(s: Seq<char>) -> Seq<Seq<char>>
    decreases s.len(),
    via words_decreases
{
    let t = trim_start(s);
    if t.len() == 0 {
        Seq::empty()
    } else {
        seq![t.take(word_len(t))] + words(t.skip(word_len(t)))
    }
}

#[via_fn]
proof fn words_decreases(s: Seq<char>) {
    lemma_trim_start_len(s);
    lemma_trim_start_head(s);
    lemma_word_len_bounds(trim_start(s));
}

proof fn lemma_word_len_bounds(s: Seq<char>)
    ensures
        0 <= word_len(s) <= s.len(),
        s.len() > 0 && !is_space(s[0]) ==> word_len(s) > 0,
    decreases s.len(),
{
    if s.len() > 0 && !is_space(s[0]) {
        lemma_word_len_bounds(s.skip(1));
    }
}

/// The maximal runs of `s` that hold no white space.
pub fn split_words(s: &str) -> (r: Vec<String>)
    ensures
        views(r@) == words(s@),
{
    let v: Vec<char> = chars_of(s);
    let n: usize = v.len();
    let mut out: Vec<String> = Vec::new();
    let mut from: usize = 0;
    assert(v@.skip(0) == v@);
    assert(views(out@) + words(v@) == words(v@));
    loop
        invariant
            from <= n == v@.len(),
            v@ == s@,
            words(s@) == views(out@) + words(v@.skip(from as int)),
        decreases n - from,
    {
        let ghost rest = v@.skip(from as int);
        let mut i: usize = from;
        while i < n && space(v[i])
            invariant
                from <= i <= n == v@.len(),
                trim_start(v@.skip(from as int)) == trim_start(v@.skip(i as int)),
            decreases n - i,
        {
            assert(v@.skip(i as int).skip(1) == v@.skip(i as int + 1));
            i = i + 1;
        }
        let ghost t = v@.skip(i as int);
        assert(trim_start(rest) == t);
        if i == n {
            assert(words(rest) == Seq::<Seq<char>>::empty());
            assert(views(out@) + words(rest) == views(out@));
            return out;
        }
        let mut j: usize = i;
        while j < n && !space(v[j])
            invariant
                i <= j <= n == v@.len(),
                forall|k: int| i <= k < j ==> !is_space(v@[k]),
            decreases n - j,
        {
            j = j + 1;
        }
        let ghost before = views(out@);
        let word: String = string_of(&v, i, j);
        proof {
            lemma_word_len(t, j - i);
            assert(word@ == t.take(j - i));
            assert(t.skip(j - i) == v@.skip(j as int));
        }
        out.push(word);
        assert(views(out@) == before.push(word@));
        assert(views(out@) + words(v@.skip(j as int)) == before + (seq![word@] + words(
            v@.skip(j as int),
        )));
        from = j;
    }
}

/// Whether `p` begins `s`.
pub fn starts_with(s: &str, p: &str) -> (r: bool)
    ensures
        r == p@.is_prefix_of(s@),
{
    let v: Vec<char> = chars_of(s);
    let w: Vec<char> = chars_of(p);
    if w.len() > v.len() {
        return false;
    }
    let mut i: usize = 0;
    while i < w.len()
        invariant
            i <= w@.len() <= v@.len(),
            v@ == s@,
            w@ == p@,
            forall|j: int| 0 <= j < i ==> v@[j] == w@[j],
        decreases w@.len() - i,
    {
        if v[i] != w[i] {
            assert(v@.subrange(0, w@.len() as int)[i as int] == v@[i as int]);
            return false;
        }
        i = i + 1;
    }
    assert(v@.subrange(0, w@.len() as int) == w@);
    true
}

/// Whether `p` occurs in `s` at position `i`.
pub open spec fn occurs_at(s: Seq<char>, p: Seq<char>, i: int) -> bool {
    0 <= i && i + p.len() <= s.len() && s.subrange(i, i + p.len()) == p
}

/// Whether `p` occurs in `s`.
pub open spec fn has_text(s: Seq<char>, p: Seq<char>) -> bool {
    exists|i: int| occurs_at(s, p, i)
}

/// Whether `v[i..]` starts with `w`.
fn matches_at(v: &Vec<char>, w: &Vec<char>, i: usize) -> (r: bool)
    requires
        i + w@.len() <= v@.len(),
    ensures
        r == occurs_at(v@, w@, i as int),
{
    let mut k: usize = 0;
    while k < w.len()
        invariant
            k <= w@.len(),
            i + w.len() <= v.len(),
            forall|j: int| 0 <= j < k ==> v@[i + j] == w@[j],
        decreases w@.len() - k,
    {
        if v[i + k] != w[k] {
            assert(v@.subrange(i as int, i + w@.len())[k as int] == v@[i + k]);
            return false;
        }
        k = k + 1;
    }
    assert(v@.subrange(i as int, i + w@.len()) == w@);
    true
}

/// Whether `p` occurs in `s`.
pub fn contains_text(s: &str, p: &str) -> (r: bool)
    ensures
        r == has_text(s@, p@),
{
    let v: Vec<char> = chars_of(s);
    let w: Vec<char> = chars_of(p);
    if w.len() > v.len() {
        return false;
    }
    let last: usize = v.len() - w.len();
    let mut i: usize = 0;
    loop
        invariant
            v@ == s@,
            w@ == p@,
            last == v@.len() - w@.len(),
            i <= last,
            forall|j: int| 0 <= j < i ==> !occurs_at(v@, w@, j),
        decreases last - i,
    {
        if matches_at(&v, &w, i) {
            return true;
        }
        if i == last {
            return false;
        }
        i = i + 1;
    }
}

/// The first position at or behind `from` at which `p` occurs in `s`.
pub open spec fn text_index(s: Seq<char>, p: Seq<char>, from: int) -> Option<int>
    decreases s.len() - from,
{
    if from < 0 || from + p.len() > s.len() {
        None
    } else if occurs_at(s, p, from) {
        Some(from)
    } else if from == s.len() {
        None
    } else {
        text_index(s, p, from + 1)
    }
}

/// The first position at which `p` occurs in `v`.
pub fn find_text(v: &Vec<char>, p: &str) -> (r: Option<usize>)
    ensures
        match r {
            Some(i) => text_index(v@, p@, 0) == Some(i as int) && occurs_at(v@, p@, i as int),
            None => text_index(v@, p@, 0) is None,
        },
{
    let w: Vec<char> = chars_of(p);
    if w.len() > v.len() {
        return None;
    }
    let last: usize = v.len() - w.len();
    let mut i: usize = 0;
    loop
        invariant
            w@ == p@,
            last == v@.len() - w@.len(),
            i <= last,
            text_index(v@, p@, 0) == text_index(v@, p@, i as int),
        decreases last - i,
    {
        if matches_at(v, &w, i) {
            return Some(i);
        }
        if i == last {
            if i < v.len() {
                assert(text_index(v@, p@, i + 1) is None);
            }
            return None;
        }
        i = i + 1;
    }
}

/// The index of the last `c` in `s`, or -1 where there is none.
pub open spec fn last_index(s: Seq<char>, c: char) -> int
    decreases s.len(),
{
    if s.len() == 0 {
        -1
    } else if s.last() == c {
        s.len() - 1
    } else {
        last_index(s.drop_last(), c)
    }
}

/// The position of the last `c` in `v`.
pub fn rfind(v: &Vec<char>, c: char) -> (r: Option<usize>)
    ensures
        match r {
            Some(i) => i < v@.len() && last_index(v@, c) == i,
            None => last_index(v@, c) == -1,
        },
{
    let mut i: usize = v.len();
    assert(v@.take(i as int) == v@);
    while i > 0
        invariant
            i <= v@.len(),
            last_index(v@, c) == last_index(v@.take(i as int), c),
        decreases i,
    {
        assert(v@.take(i as int).last() == v@[i - 1]);
        assert(v@.take(i as int).drop_last() == v@.take(i - 1));
        i = i - 1;
        if v[i] == c {
            return Some(i);
        }
    }
    None
}

/// Whether `c` occurs in `s`.
pub fn contains_char(s: &str, c: char) -> (r: bool)
    ensures
        r == s@.contains(c),
{
    let v: Vec<char> = chars_of(s);
    let i: usize = find_from(&v, 0, c);
    if i < v.len() {
        assert(s@[i as int] == c);
        true
    } else {
        false
    }
}

// ---------------------------------------------------------------------------
// Letter case
// ---------------------------------------------------------------------------

/// The ASCII lower-case form of `c`; other characters stay as they are.
pub open spec fn ascii_lower(c: char) -> char {
    if 'A' <= c && c <= 'Z' {
        ((c as u8) + 32) as char
    } else {
        c
    }
}

/// The ASCII lower-case form of `c`.
pub fn lower(c: char) -> (r: char)
    ensures
        r == ascii_lower(c),
{
    if 'A' <= c && c <= 'Z' {
        ((c as u8) + 32) as char
    } else {
        c
    }
}

/// Equality of two texts up to the case of ASCII letters.
pub open spec fn same_ignoring_case(a: Seq<char>, b: Seq<char>) -> bool {
    a.len() == b.len() && forall|i: int|
        0 <= i < a.len() ==> ascii_lower(#[trigger] a[i]) == ascii_lower(b[i])
}

/// Equality of two texts up to the case of ASCII letters.
pub fn eq_ignore_ascii_case(a: &str, b: &str) -> (r: bool)
    ensures
        r == same_ignoring_case(a@, b@),
{
    let v: Vec<char> = chars_of(a);
    let w: Vec<char> = chars_of(b);
    if v.len() != w.len() {
        return false;
    }
    let mut i: usize = 0;
    while i < v.len()
        invariant
            i <= v@.len() == w@.len(),
            v@ == a@,
            w@ == b@,
            forall|j: int| 0 <= j < i ==> ascii_lower(#[trigger] v@[j]) == ascii_lower(w@[j]),
        decreases v@.len() - i,
    {
        if lower(v[i]) != lower(w[i]) {
            assert(ascii_lower(a@[i as int]) != ascii_lower(b@[i as int]));
            return false;
        }
        i = i + 1;
    }
    true
}

/// The text with its ASCII capitals in lower case.
pub open spec fn ascii_lowered(s: Seq<char>) -> Seq<char> {
    Seq::new(s.len(), |i: int| ascii_lower(s[i]))
}

/// The text with its ASCII capitals in lower case.
pub fn ascii_lowercase(s: &str) -> (r: String)
    ensures
        r@ == ascii_lowered(s@),
{
    let v: Vec<char> = chars_of(s);
    let mut out: String = String::new();
    let mut i: usize = 0;
    while i < v.len()
        invariant
            i <= v@.len(),
            out@ == ascii_lowered(v@.take(i as int)),
        decreases v@.len() - i,
    {
        out.push(lower(v[i]));
        assert(ascii_lowered(v@.take(i + 1)) == ascii_lowered(v@.take(i as int)).push(
            ascii_lower(v@[i as int]),
        ));
        i = i + 1;
    }
    assert(v@.take(i as int) == v@);
    out
}

/// The ASCII capital of a letter; other characters as they are.
pub open spec fn ascii_upper(c: char) -> char {
    if 'a' <= c && c <= 'z' {
        ((c as u8) - 32) as char
    } else {
        c
    }
}

/// The text with its ASCII letters as capitals.
pub open spec fn ascii_uppered(s: Seq<char>) -> Seq<char> {
    Seq::new(s.len(), |i: int| ascii_upper(s[i]))
}

/// The text with its ASCII letters as capitals.
pub fn ascii_uppercase(s: &str) -> (r: String)
    ensures
        r@ == ascii_uppered(s@),
{
    let v: Vec<char> = chars_of(s);
    let mut out: String = String::new();
    let mut i: usize = 0;
    while i < v.len()
        invariant
            i <= v@.len(),
            out@ == ascii_uppered(v@.take(i as int)),
        decreases v@.len() - i,
    {
        let c: char = v[i];
        let u: char = if 'a' <= c && c <= 'z' {
            ((c as u8) - 32) as char
        } else {
            c
        };
        out.push(u);
        assert(ascii_uppered(v@.take(i + 1)) == ascii_uppered(v@.take(i as int)).push(
            ascii_upper(v@[i as int]),
        ));
        i = i + 1;
    }
    assert(v@.take(i as int) == v@);
    out
}

/// Whether the text ends with `p`.
pub fn ends_with(s: &str, p: &str) -> (r: bool)
    ensures
        r == p@.is_suffix_of(s@),
{
    let v: Vec<char> = chars_of(s);
    let w: Vec<char> = chars_of(p);
    let n: usize = v.len();
    let m: usize = w.len();
    if m > n {
        return false;
    }
    let mut i: usize = 0;
    while i < m
        invariant
            n == v@.len(),
            m == w@.len(),
            m <= n,
            i <= m,
            v@ == s@,
            w@ == p@,
            forall|j: int| 0 <= j < i ==> v@[n - m + j] == w@[j],
        decreases m - i,
    {
        if v[n - m + i] != w[i] {
            assert(v@.subrange(n - m, n as int)[i as int] == v@[n - m + i]);
            return false;
        }
        i = i + 1;
    }
    assert(v@.subrange(n - m, n as int) == w@);
    true
}

// ---------------------------------------------------------------------------
// Decimal numbers
// ---------------------------------------------------------------------------

/// A hexadecimal digit of either case.
pub open spec fn is_hex_digit(c: char) -> bool {
    is_digit(c) || ('a' <= c && c <= 'f') || ('A' <= c && c <= 'F')
}

/// Whether a character is a hexadecimal digit.
pub fn hex_digit(c: char) -> (r: bool)
    ensures
        r == is_hex_digit(c),
{
    ('0' <= c && c <= '9') || ('a' <= c && c <= 'f') || ('A' <= c && c <= 'F')
}

/// Whether `c` is a decimal digit.
pub open spec fn is_digit(c: char) -> bool {
    '0' <= c && c <= '9'
}

/// The value of a decimal digit.
pub open spec fn digit_value(c: char) -> nat {
    (c as u32 - '0' as u32) as nat
}

/// The decimal digit of a value below ten.
pub open spec fn digit(n: nat) -> char {
    ((n + 48) as u8) as char
}

/// The value that a run of decimal digits denotes.
pub open spec fn decimal_value(s: Seq<char>) -> nat
    decreases s.len(),
{
    if s.len() == 0 {
        0
    } else {
        decimal_value(s.drop_last()) * 10 + digit_value(s.last())
    }
}

/// A non-empty run of decimal digits.
pub open spec fn all_digits(s: Seq<char>) -> bool {
    s.len() > 0 && forall|i: int| 0 <= i < s.len() ==> is_digit(#[trigger] s[i])
}

/// The decimal form of `n`, without leading zeros.
pub open spec fn decimal(n: nat) -> Seq<char>
    decreases n,
{
    if n < 10 {
        seq![digit(n)]
    } else {
        decimal(n / 10).push(digit(n % 10))
    }
}

/// The decimal form of an integer, with a minus sign where it is negative.
pub open spec fn signed_decimal(n: int) -> Seq<char> {
    if n < 0 {
        seq!['-'] + decimal((-n) as nat)
    } else {
        decimal(n as nat)
    }
}

/// `s` without one leading plus sign.
pub open spec fn without_plus(s: Seq<char>) -> Seq<char> {
    if s.len() > 0 && s[0] == '+' {
        s.skip(1)
    } else {
        s
    }
}

/// The unsigned number that `s` denotes: an optional plus sign and decimal
/// digits, at most `max`.
pub open spec fn unsigned_number(s: Seq<char>, max: nat) -> Option<nat> {
    let body = without_plus(s);
    if all_digits(body) && decimal_value(body) <= max {
        Some(decimal_value(body))
    } else {
        None
    }
}

/// The signed 64-bit number that `s` denotes: an optional sign and decimal digits.
pub open spec fn signed_number(s: Seq<char>) -> Option<int> {
    if s.len() > 0 && s[0] == '-' {
        let body = s.skip(1);
        if all_digits(body) && decimal_value(body) <= 0x8000_0000_0000_0000 {
            Some(-(decimal_value(body) as int))
        } else {
            None
        }
    } else {
        match unsigned_number(s, 0x7fff_ffff_ffff_ffff) {
            Some(n) => Some(n as int),
            None => None,
        }
    }
}

pub proof fn lemma_digit(n: nat)
    requires
        n < 10,
    ensures
        is_digit(digit(n)),
        digit_value(digit(n)) == n,
{
}

/// The decimal form of a number denotes that number.
pub proof fn lemma_decimal_round_trip(n: nat)
    ensures
        all_digits(decimal(n)),
        decimal_value(decimal(n)) == n,
    decreases n,
{
    if n < 10 {
        lemma_digit(n);
        assert(decimal(n).drop_last() == Seq::<char>::empty());
        assert(decimal_value(decimal(n).drop_last()) == 0);
    } else {
        lemma_decimal_round_trip(n / 10);
        lemma_digit(n % 10);
        assert(decimal(n).drop_last() == decimal(n / 10));
    }
}

proof fn lemma_decimal_value_prefix(s: Seq<char>, i: int)
    requires
        0 <= i <= s.len(),
    ensures
        decimal_value(s.take(i)) <= decimal_value(s),
    decreases s.len(),
{
    if i == s.len() {
        assert(s.take(i) == s);
    } else {
        lemma_decimal_value_prefix(s.drop_last(), i);
        assert(s.drop_last().take(i) == s.take(i));
    }
}

/// The value of the digits `v[from..]`, where they are digits and at most `max`.
fn digits_value(v: &Vec<char>, from: usize, max: u64) -> (r: Option<u64>)
    requires
        from <= v@.len(),
    ensures
        match r {
            Some(n) => all_digits(v@.skip(from as int)) && decimal_value(v@.skip(from as int)) == n
                && n <= max,
            None => !(all_digits(v@.skip(from as int)) && decimal_value(v@.skip(from as int))
                <= max),
        },
{
    let ghost s = v@.skip(from as int);
    if from == v.len() {
        return None;
    }
    let mut value: u64 = 0;
    let mut i: usize = from;
    assert(s.take(0) == Seq::<char>::empty());
    while i < v.len()
        invariant
            from <= i <= v@.len(),
            s == v@.skip(from as int),
            value <= max,
            value == decimal_value(s.take(i - from)),
            forall|j: int| 0 <= j < i - from ==> is_digit(#[trigger] s[j]),
        decreases v@.len() - i,
    {
        let c: char = v[i];
        assert(s[i - from] == c);
        if !('0' <= c && c <= '9') {
            return None;
        }
        let d: u64 = (c as u32 - '0' as u32) as u64;
        proof {
            assert(s.take(i - from + 1).drop_last() == s.take(i - from));
            assert(s.take(i - from + 1).last() == c);
            lemma_decimal_value_prefix(s, i - from + 1);
        }
        match value.checked_mul(10) {
            None => {
                return None;
            },
            Some(m) => {
                match m.checked_add(d) {
                    None => {
                        return None;
                    },
                    Some(t) => {
                        if t > max {
                            return None;
                        }
                        value = t;
                    },
                }
            },
        }
        i = i + 1;
    }
    assert(s.take(i - from) == s);
    Some(value)
}

/// The unsigned number that `s` denotes, where it is at most `max`.
pub fn parse_unsigned(s: &str, max: u64) -> (r: Option<u64>)
    ensures
        match r {
            Some(n) => unsigned_number(s@, max as nat) == Some(n as nat),
            None => unsigned_number(s@, max as nat) is None,
        },
{
    let v: Vec<char> = chars_of(s);
    assert(v@.skip(0) == v@);
    if v.len() > 0 && v[0] == '+' {
        digits_value(&v, 1, max)
    } else {
        digits_value(&v, 0, max)
    }
}

/// The signed 64-bit number that `s` denotes.
pub fn parse_i64(s: &str) -> (r: Option<i64>)
    ensures
        match r {
            Some(n) => signed_number(s@) == Some(n as int),
            None => signed_number(s@) is None,
        },
{
    let v: Vec<char> = chars_of(s);
    if v.len() > 0 && v[0] == '-' {
        match digits_value(&v, 1, 0x8000_0000_0000_0000) {
            None => None,
            Some(n) => {
                if n == 0x8000_0000_0000_0000 {
                    Some(i64::MIN)
                } else {
                    Some(-(n as i64))
                }
            },
        }
    } else {
        match parse_unsigned(s, 0x7fff_ffff_ffff_ffff) {
            None => None,
            Some(n) => Some(n as i64),
        }
    }
}

/// The decimal form of `n`.
pub fn u64_text(n: u64) -> (r: String)
    ensures
        r@ == decimal(n as nat),
    decreases n,
{
    let d: char = ((n % 10) as u8 + 48) as char;
    let mut s: String = if n < 10 {
        String::new()
    } else {
        u64_text(n / 10)
    };
    s.push(d);
    assert(n < 10 ==> s@ == decimal(n as nat));
    s
}

/// The decimal form of `n`, with a minus sign where it is negative.
pub fn i64_text(n: i64) -> (r: String)
    ensures
        r@ == signed_decimal(n as int),
{
    if n < 0 {
        let m: u64 = if n == i64::MIN {
            0x8000_0000_0000_0000
        } else {
            (-n) as u64
        };
        let t: String = u64_text(m);
        let mut s: String = String::new();
        s.push('-');
        s.append(t.as_str());
        assert(s@ == seq!['-'] + decimal((-(n as int)) as nat));
        s
    } else {
        u64_text(n as u64)
    }
}

// ---------------------------------------------------------------------------
// Debug forms
// ---------------------------------------------------------------------------

/// The items one after the other, with a comma and a space between them.
pub open spec fn comma_list(items: Seq<Seq<char>>) -> Seq<char>
    decreases items.len(),
{
    if items.len() == 0 {
        Seq::empty()
    } else if items.len() == 1 {
        items[0]
    } else {
        comma_list(items.drop_last()) + ", "@ + items.last()
    }
}

/// Appends one more item to a comma-separated list that holds `count` items.
pub fn append_item(list: &mut String, count: usize, item: &str)
    ensures
        final(list)@ == if count == 0 {
            old(list)@ + item@
        } else {
            old(list)@ + ", "@ + item@
        },
{
    if count > 0 {
        list.append(", ");
    }
    list.append(item);
}

/// One more item at the end of a list comes after a comma.
pub proof fn lemma_comma_list_push(items: Seq<Seq<char>>, item: Seq<char>)
    ensures
        comma_list(items.push(item)) == if items.len() == 0 {
            comma_list(items) + item
        } else {
            comma_list(items) + ", "@ + item
        },
{
    assert(items.push(item).drop_last() == items);
    if items.len() == 0 {
        assert(comma_list(items) + item == item);
    }
}

/// The decimal forms of a list of numbers.
pub open spec fn number_items(v: Seq<u32>) -> Seq<Seq<char>> {
    Seq::new(v.len(), |i: int| decimal(v[i] as nat))
}

/// The decimal forms of a list of numbers, separated by commas.
pub fn number_list(v: &Vec<u32>) -> (r: String)
    ensures
        r@ == comma_list(number_items(v@)),
{
    let mut s: String = String::new();
    let mut i: usize = 0;
    assert(number_items(v@.take(0)) == Seq::<Seq<char>>::empty());
    while i < v.len()
        invariant
            i <= v@.len(),
            s@ == comma_list(number_items(v@.take(i as int))),
        decreases v@.len() - i,
    {
        proof {
            let items = number_items(v@.take(i as int));
            assert(number_items(v@.take(i + 1)) == items.push(decimal(v@[i as int] as nat)));
            lemma_comma_list_push(items, decimal(v@[i as int] as nat));
        }
        append_item(&mut s, i, u64_text(v[i] as u64).as_str());
        i = i + 1;
    }
    assert(v@.take(i as int) == v@);
    s
}

/// The decimal forms of a list of bytes.
pub open spec fn byte_items(v: Seq<u8>) -> Seq<Seq<char>> {
    Seq::new(v.len(), |i: int| decimal(v[i] as nat))
}

/// The decimal forms of a list of bytes, separated by commas.
pub fn byte_list(v: &[u8]) -> (r: String)
    ensures
        r@ == comma_list(byte_items(v@)),
{
    let mut s: String = String::new();
    let mut i: usize = 0;
    assert(byte_items(v@.take(0)) == Seq::<Seq<char>>::empty());
    while i < v.len()
        invariant
            i <= v@.len(),
            s@ == comma_list(byte_items(v@.take(i as int))),
        decreases v@.len() - i,
    {
        proof {
            let items = byte_items(v@.take(i as int));
            assert(byte_items(v@.take(i + 1)) == items.push(decimal(v@[i as int] as nat)));
            lemma_comma_list_push(items, decimal(v@[i as int] as nat));
        }
        append_item(&mut s, i, u64_text(v[i] as u64).as_str());
        i = i + 1;
    }
    assert(v@.take(i as int) == v@);
    s
}

/// The text that debug output shows for a string: quoted, with special
/// characters escaped.
pub uninterp spec fn quoted(s: Seq<char>) -> Seq<char>;

/// `format!("{:?}")` of a string slice (`<str as Debug>::fmt`): the result is a
/// function of the text alone, named [`quoted`].
#[verifier::external_body]
pub(crate) fn quote(s: &str) -> (r: String)
    ensures
        r@ == quoted(s@),
{
    format!("{s:?}")
}

/// The text in lower case, by the rules of Unicode.
pub uninterp spec fn lowercased(s: Seq<char>) -> Seq<char>;

/// `str::to_lowercase`: the result is a function of the text alone, named
/// [`lowercased`]; on ASCII text only the capitals change.
#[verifier::external_body]
pub(crate) fn to_lowercase(s: &str) -> (r: String)
    ensures
        r@ == lowercased(s@),
        vstd::utf8::is_ascii_chars(s@) ==> r@ == ascii_lowered(s@),
{
    s.to_lowercase()
}

/// The text in upper case, by the rules of Unicode.
pub uninterp spec fn uppercased(s: Seq<char>) -> Seq<char>;

/// `str::to_uppercase`: the result is a function of the text alone, named
/// [`uppercased`]; on ASCII text only the small letters change.
#[verifier::external_body]
pub(crate) fn to_uppercase(s: &str) -> (r: String)
    ensures
        r@ == uppercased(s@),
        vstd::utf8::is_ascii_chars(s@) ==> r@ == ascii_uppered(s@),
{
    s.to_uppercase()
}

// ---------------------------------------------------------------------------
// What the functions above do, seen from their results
// ---------------------------------------------------------------------------

/// The parts one after the other, with one `c` between any two.
pub open spec fn joined_with(parts: Seq<Seq<char>>, c: char) -> Seq<char>
    decreases parts.len(),
{
    if parts.len() == 0 {
        Seq::empty()
    } else if parts.len() == 1 {
        parts[0]
    } else {
        parts[0] + seq![c] + joined_with(parts.skip(1), c)
    }
}

/// Whether a text holds nothing but white space.
pub open spec fn all_spaces(s: Seq<char>) -> bool {
    forall|i: int| 0 <= i < s.len() ==> is_space(#[trigger] s[i])
}

/// Whether a text holds no white space.
pub open spec fn no_spaces(s: Seq<char>) -> bool {
    forall|i: int| 0 <= i < s.len() ==> !is_space(#[trigger] s[i])
}

/// The blank and the control characters from tab to carriage return are white space;
/// the visible ASCII characters are not.
pub proof fn law_ascii_white_space(c: char)
    requires
        (c as u32) < 0x80,
    ensures
        is_space(c) <==> (c == ' ' || c == '\t' || c == '\n' || c == '\r' || c as u32 == 0x0b
            || c as u32 == 0x0c),
{
}

/// The first position of a character is one at which it stands, with none before it;
/// it is the length of the text exactly where the character does not occur.
pub proof fn law_first_index(s: Seq<char>, c: char)
    ensures
        0 <= first_index(s, c) <= s.len(),
        forall|j: int| 0 <= j < first_index(s, c) ==> s[j] != c,
        first_index(s, c) < s.len() ==> s[first_index(s, c)] == c,
        first_index(s, c) == s.len() <==> !s.contains(c),
    decreases s.len(),
{
    if s.len() > 0 && s[0] != c {
        let t = s.skip(1);
        law_first_index(t, c);
        assert forall|j: int| 0 <= j < first_index(s, c) implies s[j] != c by {
            if j > 0 {
                assert(s[j] == t[j - 1]);
            }
        }
    }
    if first_index(s, c) < s.len() {
        assert(s.contains(c));
    }
}

/// The last position of a character is one at which it stands, with none behind it;
/// there is none exactly where the character does not occur.
pub proof fn law_last_index(s: Seq<char>, c: char)
    ensures
        -1 <= last_index(s, c) < s.len(),
        forall|j: int| last_index(s, c) < j < s.len() ==> s[j] != c,
        last_index(s, c) >= 0 ==> s[last_index(s, c)] == c,
        last_index(s, c) == -1 <==> !s.contains(c),
    decreases s.len(),
{
    if s.len() > 0 && s.last() != c {
        let t = s.drop_last();
        law_last_index(t, c);
        assert forall|j: int| last_index(s, c) < j < s.len() implies s[j] != c by {
            if j < t.len() {
                assert(s[j] == t[j]);
            }
        }
    }
    if last_index(s, c) >= 0 {
        assert(s.contains(c));
    }
}

/// A text splits at its first `c`: the two parts around a `c` give the text, and the
/// first of them holds no `c`. A text without `c` does not split.
pub proof fn law_split_once(before: Seq<char>, after: Seq<char>, c: char)
    requires
        !before.contains(c),
    ensures
        split_once_at(before + seq![c] + after, c) == Some((before, after)),
        split_once_at(before, c) is None,
{
    let s = before + seq![c] + after;
    lemma_first_index(s, c, before.len() as int);
    assert(s.take(before.len() as int) =~= before);
    assert(s.skip(before.len() as int + 1) =~= after);
    lemma_first_index(before, c, before.len() as int);
}

/// The pieces of a text, with `c` between them again, are the text, and none of them
/// holds a `c`.
pub proof fn law_pieces_give_the_text(s: Seq<char>, c: char)
    ensures
        joined_with(pieces(s, c), c) == s,
        pieces(s, c).len() > 0,
        forall|k: int| 0 <= k < pieces(s, c).len() ==> !(#[trigger] pieces(s, c)[k]).contains(c),
    decreases s.len(),
{
    let i = first_index(s, c);
    let all = pieces(s, c);
    law_first_index(s, c);
    if i < s.len() {
        let rest = s.skip(i + 1);
        law_pieces_give_the_text(rest, c);
        assert(all.skip(1) =~= pieces(rest, c));
        assert(s =~= s.take(i) + seq![c] + rest);
        assert forall|k: int| 0 <= k < all.len() implies !(#[trigger] all[k]).contains(c) by {
            if k > 0 {
                assert(all[k] == pieces(rest, c)[k - 1]);
            }
        }
    }
}

/// Texts without `c`, joined by `c`, are what the whole is split into.
pub proof fn law_joined_text_splits_again(parts: Seq<Seq<char>>, c: char)
    requires
        parts.len() > 0,
        forall|k: int| 0 <= k < parts.len() ==> !(#[trigger] parts[k]).contains(c),
    ensures
        pieces(joined_with(parts, c), c) == parts,
    decreases parts.len(),
{
    let s = joined_with(parts, c);
    let n = parts[0].len() as int;
    if parts.len() == 1 {
        lemma_first_index(s, c, n);
        assert(pieces(s, c) =~= parts);
    } else {
        let rest = parts.skip(1);
        assert forall|k: int| 0 <= k < rest.len() implies !(#[trigger] rest[k]).contains(c) by {
            assert(rest[k] == parts[k + 1]);
        }
        law_joined_text_splits_again(rest, c);
        lemma_first_index(s, c, n);
        assert(s.take(n) =~= parts[0]);
        assert(s.skip(n + 1) =~= joined_with(rest, c));
        assert(pieces(s, c) =~= parts);
    }
}

proof fn lemma_trim_start_skips(pre: Seq<char>, t: Seq<char>)
    requires
        all_spaces(pre),
    ensures
        trim_start(pre + t) == trim_start(t),
    decreases pre.len(),
{
    if pre.len() == 0 {
        assert(pre + t =~= t);
    } else {
        assert((pre + t)[0] == pre[0]);
        assert((pre + t).skip(1) =~= pre.skip(1) + t);
        lemma_trim_start_skips(pre.skip(1), t);
    }
}

proof fn lemma_trim_end_skips(t: Seq<char>, post: Seq<char>)
    requires
        all_spaces(post),
    ensures
        trim_end(t + post) == trim_end(t),
    decreases post.len(),
{
    if post.len() == 0 {
        assert(t + post =~= t);
    } else {
        assert((t + post).last() == post.last());
        assert((t + post).drop_last() =~= t + post.drop_last());
        lemma_trim_end_skips(t, post.drop_last());
    }
}

/// Trimming takes away the white space around a text that neither starts nor ends
/// with white space, and nothing else.
pub proof fn law_trimming_takes_the_surrounding_space(
    pre: Seq<char>,
    core: Seq<char>,
    post: Seq<char>,
)
    requires
        all_spaces(pre),
        all_spaces(post),
        core.len() > 0 ==> !is_space(core[0]) && !is_space(core.last()),
    ensures
        trimmed(pre + core + post) == core,
{
    let t = core + post;
    assert(pre + core + post =~= pre + t);
    lemma_trim_start_skips(pre, t);
    if core.len() > 0 {
        assert(t[0] == core[0]);
        assert(trim_start(t) == t);
        lemma_trim_end_skips(core, post);
    } else {
        assert(t =~= post + Seq::empty());
        lemma_trim_start_skips(post, Seq::empty());
    }
}

/// The words of a text are its runs without white space, one after the other.
pub proof fn law_words_are_the_runs(pre: Seq<char>, word: Seq<char>, rest: Seq<char>)
    requires
        all_spaces(pre),
        no_spaces(word),
        word.len() > 0,
        rest.len() > 0 ==> is_space(rest[0]),
    ensures
        words(pre + word + rest) == seq![word] + words(rest),
        words(pre) == Seq::<Seq<char>>::empty(),
{
    let t = word + rest;
    assert(pre + word + rest =~= pre + t);
    lemma_trim_start_skips(pre, t);
    assert(t[0] == word[0]);
    assert(trim_start(t) == t);
    lemma_word_len(t, word.len() as int);
    assert(t.take(word.len() as int) =~= word);
    assert(t.skip(word.len() as int) =~= rest);
    assert(pre =~= pre + Seq::empty());
    lemma_trim_start_skips(pre, Seq::empty());
}

/// A text is found wherever it stands, at its first place, and nowhere else.
pub proof fn law_text_is_found_at_its_first_place(s: Seq<char>, p: Seq<char>, from: int)
    requires
        0 <= from <= s.len(),
    ensures
        match text_index(s, p, from) {
            Some(i) => from <= i && i + p.len() <= s.len() && s.subrange(i, i + p.len()) == p
                && forall|j: int|
                from <= j < i ==> #[trigger] s.subrange(j, j + p.len()) != p,
            None => forall|j: int|
                from <= j && j + p.len() <= s.len() ==> #[trigger] s.subrange(j, j + p.len()) != p,
        },
    decreases s.len() - from,
{
    if from + p.len() <= s.len() && !occurs_at(s, p, from) && from < s.len() {
        law_text_is_found_at_its_first_place(s, p, from + 1);
    }
}

/// A text holds every text between two parts of it.
pub proof fn law_part_of_a_text_is_found(before: Seq<char>, p: Seq<char>, after: Seq<char>)
    ensures
        has_text(before + p + after, p),
{
    let s = before + p + after;
    let n = before.len() as int;
    assert(s.subrange(n, n + p.len()) =~= p);
    assert(occurs_at(s, p, n));
}

/// The capital and the small letter of one place in the alphabet are each other's
/// forms; no other character has another form.
pub proof fn law_letters_have_two_cases(k: int, c: char)
    requires
        0 <= k < 26,
    ensures
        ascii_lower("ABCDEFGHIJKLMNOPQRSTUVWXYZ"@[k]) == "abcdefghijklmnopqrstuvwxyz"@[k],
        ascii_upper("abcdefghijklmnopqrstuvwxyz"@[k]) == "ABCDEFGHIJKLMNOPQRSTUVWXYZ"@[k],
        !("ABCDEFGHIJKLMNOPQRSTUVWXYZ"@.contains(c)) ==> ascii_lower(c) == c,
        !("abcdefghijklmnopqrstuvwxyz"@.contains(c)) ==> ascii_upper(c) == c,
{
    reveal_strlit("ABCDEFGHIJKLMNOPQRSTUVWXYZ");
    reveal_strlit("abcdefghijklmnopqrstuvwxyz");
    if 'A' <= c && c <= 'Z' {
        assert("ABCDEFGHIJKLMNOPQRSTUVWXYZ"@[c as int - 65] == c);
    }
    if 'a' <= c && c <= 'z' {
        assert("abcdefghijklmnopqrstuvwxyz"@[c as int - 97] == c);
    }
}

/// A number is written with the ten digits, the last of which is its remainder by
/// ten, behind the digits of its quotient.
pub proof fn law_decimal_digits(n: nat)
    ensures
        n < 10 ==> decimal(n) == seq!["0123456789"@[n as int]],
        n >= 10 ==> decimal(n) == decimal(n / 10).push("0123456789"@[(n % 10) as int]),
{
    reveal_strlit("0123456789");
}

pub proof fn lemma_decimal_has_no_leading_zero(n: nat)
    ensures
        decimal(n).len() > 0,
        n > 0 ==> decimal(n)[0] != '0',
    decreases n,
{
    if n >= 10 {
        lemma_decimal_has_no_leading_zero(n / 10);
    } else {
        lemma_digit(n);
    }
}

proof fn lemma_decimal_value_grows(s: Seq<char>)
    requires
        all_digits(s),
        s[0] != '0',
    ensures
        decimal_value(s) > 0,
    decreases s.len(),
{
    reveal_with_fuel(decimal_value, 2);
    if s.len() > 1 {
        let p = s.drop_last();
        assert(p[0] == s[0]);
        assert forall|i: int| 0 <= i < p.len() implies is_digit(#[trigger] p[i]) by {
            assert(p[i] == s[i]);
        }
        lemma_decimal_value_grows(p);
    } else {
        assert(s.drop_last() =~= Seq::<char>::empty());
        assert(is_digit(s[0]));
    }
}

/// A run of digits without a leading zero is the decimal form of its value.
pub proof fn law_digits_are_the_decimal_form(s: Seq<char>)
    requires
        all_digits(s),
        s.len() > 1 ==> s[0] != '0',
    ensures
        decimal(decimal_value(s)) == s,
    decreases s.len(),
{
    reveal_with_fuel(decimal_value, 2);
    let p = s.drop_last();
    assert(is_digit(s.last()));
    let d = digit_value(s.last());
    assert(digit(d) == s.last());
    if s.len() > 1 {
        assert(p[0] == s[0]);
        assert forall|i: int| 0 <= i < p.len() implies is_digit(#[trigger] p[i]) by {
            assert(p[i] == s[i]);
        }
        law_digits_are_the_decimal_form(p);
        lemma_decimal_value_grows(p);
        let v = decimal_value(p);
        assert((v * 10 + d) / 10 == v && (v * 10 + d) % 10 == d) by (nonlinear_arith)
            requires
                0 <= d < 10,
        ;
        assert(p.push(s.last()) =~= s);
    } else {
        assert(p =~= Seq::<char>::empty());
        assert(seq![s.last()] =~= s);
    }
}

proof fn lemma_leading_zero(s: Seq<char>)
    ensures
        decimal_value(seq!['0'] + s) == decimal_value(s),
    decreases s.len(),
{
    let z = seq!['0'] + s;
    reveal_with_fuel(decimal_value, 2);
    if s.len() > 0 {
        assert(z.drop_last() =~= seq!['0'] + s.drop_last());
        assert(z.last() == s.last());
        lemma_leading_zero(s.drop_last());
    } else {
        assert(z.drop_last() =~= Seq::<char>::empty());
    }
}

/// An unsigned number is read from its decimal form, also behind a plus sign or
/// zeros, exactly if it is within the bound.
pub proof fn law_unsigned_number_is_read(n: nat, zeros: nat, max: nat)
    ensures
        ({
            let want = if n <= max {
                Some(n)
            } else {
                None
            };
            let padded = Seq::new(zeros, |i: int| '0') + decimal(n);
            &&& unsigned_number(decimal(n), max) == want
            &&& unsigned_number(padded, max) == want
            &&& unsigned_number(seq!['+'] + padded, max) == want
        }),
    decreases zeros,
{
    let padded = Seq::new(zeros, |i: int| '0') + decimal(n);
    lemma_decimal_round_trip(n);
    assert(is_digit(decimal(n)[0]));
    if zeros > 0 {
        let fewer = Seq::new((zeros - 1) as nat, |i: int| '0') + decimal(n);
        law_unsigned_number_is_read(n, (zeros - 1) as nat, max);
        assert(padded =~= seq!['0'] + fewer);
        lemma_leading_zero(fewer);
        assert((seq!['+'] + fewer).skip(1) =~= fewer);
        if fewer[0] == '+' {
            assert(zeros == 1);
        }
        assert(fewer[0] != '+') by {
            if zeros == 1 {
                assert(fewer[0] == decimal(n)[0]);
            }
        }
        assert forall|i: int| 0 <= i < padded.len() implies is_digit(#[trigger] padded[i]) by {
            if i >= zeros {
                assert(padded[i] == decimal(n)[i - zeros]);
            }
        }
        assert(all_digits(padded));
        lemma_padded_value(n, (zeros - 1) as nat);
    } else {
        assert(padded =~= decimal(n));
    }
    assert((seq!['+'] + padded).skip(1) =~= padded);
}

proof fn lemma_padded_value(n: nat, zeros: nat)
    ensures
        decimal_value(Seq::new(zeros, |i: int| '0') + decimal(n)) == n,
    decreases zeros,
{
    lemma_decimal_round_trip(n);
    let padded = Seq::new(zeros, |i: int| '0') + decimal(n);
    if zeros > 0 {
        let fewer = Seq::new((zeros - 1) as nat, |i: int| '0') + decimal(n);
        lemma_padded_value(n, (zeros - 1) as nat);
        assert(padded =~= seq!['0'] + fewer);
        lemma_leading_zero(fewer);
    } else {
        assert(padded =~= decimal(n));
    }
}

/// A text that is empty, a sign alone, or holds a character that is no digit behind
/// its first one is no number.
pub proof fn law_other_texts_are_no_numbers(s: Seq<char>, max: nat)
    requires
        ({
            ||| s.len() == 0
            ||| s.len() == 1 && (s[0] == '+' || s[0] == '-')
            ||| exists|i: int| 1 <= i < s.len() && !('0' <= #[trigger] s[i] && s[i] <= '9')
            ||| s.len() > 0 && s[0] != '+' && s[0] != '-' && !('0' <= s[0] && s[0] <= '9')
        }),
    ensures
        unsigned_number(s, max) is None,
        signed_number(s) is None,
{
    if s.len() > 0 {
        let tail = s.skip(1);
        if exists|i: int| 1 <= i < s.len() && !('0' <= #[trigger] s[i] && s[i] <= '9') {
            let i = choose|i: int| 1 <= i < s.len() && !('0' <= #[trigger] s[i] && s[i] <= '9');
            assert(!is_digit(s[i]));
            assert(!is_digit(tail[i - 1]));
        } else {
            assert(!is_digit(s[0]));
        }
    }
}

/// A signed 64-bit number is read from its decimal form; a number beyond is not.
pub proof fn law_signed_number_is_read(n: int)
    ensures
        signed_number(signed_decimal(n)) == if i64::MIN <= n <= i64::MAX {
            Some(n)
        } else {
            None
        },
{
    if n < 0 {
        lemma_decimal_round_trip((-n) as nat);
        assert(signed_decimal(n).skip(1) =~= decimal((-n) as nat));
    } else {
        lemma_decimal_round_trip(n as nat);
        assert(is_digit(decimal(n as nat)[0]));
        law_unsigned_number_is_read(n as nat, 0, 0x7fff_ffff_ffff_ffff);
    }
}

/// The decimal forms of two numbers differ, also with the sign.
pub proof fn law_decimal_forms_differ(a: int, b: int)
    requires
        signed_decimal(a) == signed_decimal(b),
    ensures
        a == b,
{
    lemma_decimal_round_trip(if a < 0 { (-a) as nat } else { a as nat });
    lemma_decimal_round_trip(if b < 0 { (-b) as nat } else { b as nat });
    assert(signed_decimal(a)[0] == signed_decimal(b)[0]);
    if a < 0 {
        assert(signed_decimal(a).skip(1) =~= decimal((-a) as nat));
    } else {
        assert(is_digit(decimal(a as nat)[0]));
    }
    if b < 0 {
        assert(signed_decimal(b).skip(1) =~= decimal((-b) as nat));
    } else {
        assert(is_digit(decimal(b as nat)[0]));
    }
}

proof fn lemma_trim_start_of_text(s: Seq<char>, i: int)
    requires
        0 <= i < s.len(),
        !is_space(s[i]),
    ensures
        trim_start(s).len() > 0,
        !is_space(trim_start(s)[0]),
    decreases s.len(),
{
    if is_space(s[0]) {
        assert(s.skip(1)[i - 1] == s[i]);
        lemma_trim_start_of_text(s.skip(1), i - 1);
    }
}

proof fn lemma_trim_end_of_text(s: Seq<char>)
    requires
        s.len() > 0,
        !is_space(s[0]),
    ensures
        trim_end(s).len() > 0,
    decreases s.len(),
{
    if is_space(s.last()) {
        assert(s.drop_last()[0] == s[0]);
        lemma_trim_end_of_text(s.drop_last());
    }
}

/// Trimming leaves nothing of a text exactly if it holds nothing but white space.
pub proof fn lemma_blank_text(s: Seq<char>)
    ensures
        trimmed(s).len() == 0 <==> all_spaces(s),
{
    if all_spaces(s) {
        let none = Seq::<char>::empty();
        assert(s =~= s + none + none);
        law_trimming_takes_the_surrounding_space(s, none, none);
    } else {
        let i = choose|i: int| 0 <= i < s.len() && !is_space(#[trigger] s[i]);
        lemma_trim_start_of_text(s, i);
        lemma_trim_end_of_text(trim_start(s));
    }
}

proof fn lemma_comma_list_prepend(first: Seq<char>, rest: Seq<Seq<char>>)
    requires
        rest.len() > 0,
    ensures
        comma_list(seq![first] + rest) == first + ", "@ + comma_list(rest),
    decreases rest.len(),
{
    let all = seq![first] + rest;
    reveal_with_fuel(comma_list, 2);
    assert(all.last() == rest.last());
    if rest.len() == 1 {
        assert(all.drop_last() =~= seq![first]);
        assert(comma_list(all) =~= first + ", "@ + comma_list(rest));
    } else {
        assert(all.drop_last() =~= seq![first] + rest.drop_last());
        lemma_comma_list_prepend(first, rest.drop_last());
        assert(comma_list(all) =~= first + ", "@ + comma_list(rest));
    }
}

/// A list has its items in order, with a comma and a blank between any two.
pub proof fn law_list_has_its_items_in_order(first: Seq<char>, rest: Seq<Seq<char>>)
    ensures
        comma_list(Seq::empty()) == Seq::<char>::empty(),
        comma_list(seq![first]) == first,
        rest.len() > 0 ==> comma_list(seq![first] + rest) == first + ", "@ + comma_list(rest),
{
    if rest.len() > 0 {
        lemma_comma_list_prepend(first, rest);
    }
}

/// The items of a list of numbers are their decimal forms.
pub proof fn law_number_items_are_decimal(v: Seq<u32>, b: Seq<u8>, i: int)
    ensures
        number_items(v).len() == v.len(),
        byte_items(b).len() == b.len(),
        0 <= i < v.len() ==> number_items(v)[i] == decimal(v[i] as nat),
        0 <= i < b.len() ==> byte_items(b)[i] == decimal(b[i] as nat),
{
}

/// Texts that differ only in the case of ASCII letters are the same up to case, and
/// no others are.
pub proof fn law_case_alone_is_ignored(a: Seq<char>, b: Seq<char>)
    ensures
        same_ignoring_case(a, b) <==> ascii_lowered(a) == ascii_lowered(b),
        same_ignoring_case(a, b) <==> ascii_uppered(a) == ascii_uppered(b),
{
    if same_ignoring_case(a, b) {
        assert(ascii_lowered(a) =~= ascii_lowered(b));
        assert forall|i: int| 0 <= i < a.len() implies ascii_upper(a[i]) == ascii_upper(b[i]) by {
            assert(ascii_lower(a[i]) == ascii_lower(b[i]));
        }
        assert(ascii_uppered(a) =~= ascii_uppered(b));
    }
    if ascii_lowered(a) == ascii_lowered(b) {
        assert(ascii_lowered(a).len() == a.len() && ascii_lowered(b).len() == b.len());
        assert forall|i: int| 0 <= i < a.len() implies ascii_lower(#[trigger] a[i]) == ascii_lower(
            b[i],
        ) by {
            assert(ascii_lowered(a)[i] == ascii_lowered(b)[i]);
        }
    }
    if ascii_uppered(a) == ascii_uppered(b) {
        assert(ascii_uppered(a).len() == a.len() && ascii_uppered(b).len() == b.len());
        assert forall|i: int| 0 <= i < a.len() implies ascii_lower(#[trigger] a[i]) == ascii_lower(
            b[i],
        ) by {
            assert(ascii_uppered(a)[i] == ascii_uppered(b)[i]);
            assert(ascii_upper(a[i]) == ascii_upper(b[i]));
        }
    }
}

/// The hexadecimal digits are the sixteen of either case, and the decimal digits the
/// first ten.
pub proof fn law_digits_are_told_by_their_place(c: char)
    ensures
        is_digit(c) <==> "0123456789"@.contains(c),
        is_hex_digit(c) <==> "0123456789abcdefABCDEF"@.contains(c),
{
    reveal_strlit("0123456789");
    reveal_strlit("0123456789abcdefABCDEF");
    let d = "0123456789"@;
    let h = "0123456789abcdefABCDEF"@;
    if '0' <= c && c <= '9' {
        assert(d[c as int - 48] == c);
        assert(h[c as int - 48] == c);
    }
    if 'a' <= c && c <= 'f' {
        assert(h[c as int - 97 + 10] == c);
    }
    if 'A' <= c && c <= 'F' {
        assert(h[c as int - 65 + 16] == c);
    }
}

/// White space is just the characters with the Unicode property of that name.
pub proof fn law_unicode_white_space(c: char)
    ensures
        is_space(c) <==> {
            let n = c as u32;
            ||| n == 9 || n == 10 || n == 11 || n == 12 || n == 13 || n == 32
            ||| n == 133 || n == 160 || n == 5760
            ||| n == 8192 || n == 8193 || n == 8194 || n == 8195 || n == 8196 || n == 8197
            ||| n == 8198 || n == 8199 || n == 8200 || n == 8201 || n == 8202
            ||| n == 8232 || n == 8233 || n == 8239 || n == 8287 || n == 12288
        },
{
}

/// The texts of a list of strings are those of its strings, in order, and the text of
/// an option is that of its string.
pub proof fn law_texts_are_those_of_the_strings(v: Seq<String>, i: int, s: String)
    ensures
        views(v).len() == v.len(),
        0 <= i < v.len() ==> views(v)[i] == v[i]@,
        opt_view(Some(s)) == Some(s@),
        opt_view(None) is None,
{
}

/// A signed number is read behind either sign and behind zeros, within 64 bits.
pub proof fn law_signed_number_with_sign_and_zeros(n: nat, zeros: nat)
    ensures
        ({
            let padded = Seq::new(zeros, |i: int| '0') + decimal(n);
            &&& n <= i64::MAX ==> signed_number(padded) == Some(n as int) && signed_number(
                seq!['+'] + padded,
            ) == Some(n as int)
            &&& n <= 0x8000_0000_0000_0000 ==> signed_number(seq!['-'] + padded) == Some(-(n as int))
        }),
{
    let padded = Seq::new(zeros, |i: int| '0') + decimal(n);
    law_unsigned_number_is_read(n, zeros, 0x7fff_ffff_ffff_ffff);
    law_unsigned_number_is_read(n, zeros, 0x8000_0000_0000_0000);
    lemma_padded_value(n, zeros);
    lemma_decimal_round_trip(n);
    assert forall|i: int| 0 <= i < padded.len() implies is_digit(#[trigger] padded[i]) by {
        if i >= zeros {
            assert(padded[i] == decimal(n)[i - zeros]);
        }
    }
    assert(all_digits(padded));
    assert(is_digit(padded[0]));
    assert((seq!['-'] + padded).skip(1) =~= padded);
    assert((seq!['+'] + padded)[0] == '+');
}

} // verus!
