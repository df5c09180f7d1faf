//! The textual forms of IP addresses.
use vstd::prelude::*;

use crate::text;

verus! {

/// A decimal number from 0 to 255 without leading zeros.
pub open spec fn is_octet(s: Seq<char>) -> bool {
    &&& text::all_digits(s)
    &&& s.len() <= 3
    &&& (s.len() > 1 ==> s[0] != '0')
    &&& text::decimal_value(s) <= 255
}

/// Four octets separated by dots.
pub open spec fn is_ipv4(s: Seq<char>) -> bool {
    let parts = text::pieces(s, '.');
    parts.len() == 4 && forall|i: int| 0 <= i < 4 ==> is_octet(#[trigger] parts[i])
}

/// One to four hexadecimal digits.
pub open spec fn is_hextet(s: Seq<char>) -> bool {
    1 <= s.len() <= 4 && forall|i: int| 0 <= i < s.len() ==> text::is_hex_digit(#[trigger] s[i])
}

/// The number of 16-bit groups that a list of groups stands for, the last of
/// which may be an IPv4 address where `ipv4_last` allows it; -1 where one of
/// them is neither.
pub open spec fn groups_width(groups: Seq<Seq<char>>, ipv4_last: bool) -> int {
    let n = groups.len();
    if n == 0 {
        0
    } else if !(forall|i: int| 0 <= i < n - 1 ==> is_hextet(#[trigger] groups[i])) {
        -1
    } else if is_hextet(groups[n - 1]) {
        n as int
    } else if ipv4_last && is_ipv4(groups[n - 1]) {
        n as int + 1
    } else {
        -1
    }
}

/// The groups that a colon-separated text lists; none where it is empty.
pub open spec fn colon_groups(s: Seq<char>) -> Seq<Seq<char>> {
    if s.len() == 0 {
        Seq::empty()
    } else {
        text::pieces(s, ':')
    }
}

/// Eight groups separated by colons. One `::` may stand for one or more groups
/// of zeros, and an IPv4 address at the end stands for two groups.
pub open spec fn is_ipv6(s: Seq<char>) -> bool {
    match text::text_index(s, "::"@, 0) {
        None => groups_width(colon_groups(s), true) == 8,
        Some(i) => {
            let head = groups_width(colon_groups(s.take(i)), false);
            let tail = groups_width(colon_groups(s.skip(i + 2)), true);
            head >= 0 && tail >= 0 && head + tail <= 7
        },
    }
}

/// The textual form of an IPv4 or IPv6 address.
pub open spec fn is_ip_address(s: Seq<char>) -> bool {
    is_ipv4(s) || is_ipv6(s)
}

fn octet(s: &str) -> (r: bool)
    ensures
        r == is_octet(s@),
{
    let v: Vec<char> = text::chars_of(s);
    if v.len() > 3 || (v.len() > 0 && v[0] == '+') || (v.len() > 1 && v[0] == '0') {
        assert(is_octet(s@) ==> text::is_digit(s@[0]));
        return false;
    }
    text::parse_unsigned(s, 255).is_some()
}

fn ipv4(s: &str) -> (r: bool)
    ensures
        r == is_ipv4(s@),
{
    let parts: Vec<String> = text::split_all(s, '.');
    let ghost all = text::views(parts@);
    assert(all.len() == parts@.len());
    if parts.len() != 4 {
        return false;
    }
    let mut i: usize = 0;
    while i < 4
        invariant
            i <= 4 == parts@.len(),
            all == text::views(parts@),
            all == text::pieces(s@, '.'),
            forall|j: int| 0 <= j < i ==> is_octet(#[trigger] all[j]),
        decreases 4 - i,
    {
        if !octet(parts[i].as_str()) {
            assert(!is_octet(all[i as int]));
            return false;
        }
        i = i + 1;
    }
    true
}

fn hextet(s: &str) -> (r: bool)
    ensures
        r == is_hextet(s@),
{
    let v: Vec<char> = text::chars_of(s);
    if v.len() == 0 || v.len() > 4 {
        return false;
    }
    let mut i: usize = 0;
    while i < v.len()
        invariant
            i <= v@.len(),
            v@ == s@,
            forall|j: int| 0 <= j < i ==> text::is_hex_digit(#[trigger] v@[j]),
        decreases v@.len() - i,
    {
        if !text::hex_digit(v[i]) {
            assert(!text::is_hex_digit(s@[i as int]));
            return false;
        }
        i = i + 1;
    }
    true
}

/// The width of the groups of a colon-separated text, where it is at most 8.
fn width(s: &str, ipv4_last: bool) -> (r: Option<usize>)
    ensures
        match r {
            Some(w) => w <= 9 && groups_width(colon_groups(s@), ipv4_last) == w,
            None => !(0 <= groups_width(colon_groups(s@), ipv4_last) <= 8),
        },
{
    if s.is_empty() {
        return Some(0);
    }
    let groups: Vec<String> = text::split_all(s, ':');
    let ghost all = text::views(groups@);
    assert(all == colon_groups(s@));
    let n: usize = groups.len();
    assert(all.len() == n);
    if n > 8 {
        return None;
    }
    if n == 0 {
        return Some(0);
    }
    let mut i: usize = 0;
    while i < n - 1
        invariant
            1 <= n <= 8,
            n == groups@.len(),
            i <= n - 1,
            all == text::views(groups@),
            all == colon_groups(s@),
            forall|j: int| 0 <= j < i ==> is_hextet(#[trigger] all[j]),
        decreases n - i,
    {
        if !hextet(groups[i].as_str()) {
            assert(!is_hextet(all[i as int]));
            return None;
        }
        i = i + 1;
    }
    let last: &String = &groups[n - 1];
    assert(last@ == all[n - 1]);
    if hextet(last.as_str()) {
        Some(n)
    } else if ipv4_last && ipv4(last.as_str()) {
        Some(n + 1)
    } else {
        None
    }
}

fn ipv6(s: &str) -> (r: bool)
    ensures
        r == is_ipv6(s@),
{
    let v: Vec<char> = text::chars_of(s);
    let n: usize = v.len();
    match text::find_text(&v, "::") {
        None => match width(s, true) {
            Some(w) => w == 8,
            None => false,
        },
        Some(i) => {
            proof {
                reveal_strlit("::");
            }
            let head: String = text::string_of(&v, 0, i);
            let tail: String = text::string_of(&v, i + 2, n);
            assert(head@ == s@.take(i as int));
            assert(tail@ == s@.skip(i + 2));
            match (width(head.as_str(), false), width(tail.as_str(), true)) {
                (Some(a), Some(b)) => a + b <= 7,
                _ => false,
            }
        },
    }
}

/// Whether `s` is the textual form of an IPv4 or IPv6 address.
pub fn ip_address(s: &str) -> (r: bool)
    ensures
        r == is_ip_address(s@),
{
    ipv4(s) || ipv6(s)
}

/// The dotted form of four numbers.
pub open spec fn dotted(a: nat, b: nat, c: nat, d: nat) -> Seq<char> {
    text::decimal(a) + "."@ + text::decimal(b) + "."@ + text::decimal(c) + "."@ + text::decimal(d)
}

/// One to four digits from `0` to `9`, `a` to `f` or `A` to `F`.
pub open spec fn is_group(s: Seq<char>) -> bool {
    1 <= s.len() <= 4 && forall|i: int|
        0 <= i < s.len() ==> (('0' <= #[trigger] s[i] && s[i] <= '9') || ('a' <= s[i] && s[i]
            <= 'f') || ('A' <= s[i] && s[i] <= 'F'))
}

proof fn lemma_joined_chars(parts: Seq<Seq<char>>, c: char, i: int)
    requires
        0 <= i < text::joined_with(parts, c).len(),
    ensures
        text::joined_with(parts, c)[i] == c || exists|k: int, j: int|
            0 <= k < parts.len() && 0 <= j < parts[k].len() && text::joined_with(parts, c)[i]
                == #[trigger] parts[k][j],
    decreases parts.len(),
{
    let s = text::joined_with(parts, c);
    if parts.len() == 1 {
        assert(s[i] == parts[0][i]);
    } else if parts.len() > 1 {
        let n = parts[0].len() as int;
        let rest = parts.skip(1);
        let tail = text::joined_with(rest, c);
        if i < n {
            assert(s[i] == parts[0][i]);
        } else if i > n {
            lemma_joined_chars(rest, c, i - n - 1);
            assert(s[i] == tail[i - n - 1]);
            if s[i] != c {
                let (k, j) = choose|k: int, j: int|
                    0 <= k < rest.len() && 0 <= j < rest[k].len() && tail[i - n - 1]
                        == #[trigger] rest[k][j];
                assert(rest[k] == parts[k + 1]);
                assert(s[i] == parts[k + 1][j]);
            }
        }
    }
}

proof fn lemma_ipv4_characters(s: Seq<char>, i: int)
    requires
        is_ipv4(s),
        0 <= i < s.len(),
    ensures
        s[i] == '.' || ('0' <= s[i] && s[i] <= '9'),
{
    let parts = text::pieces(s, '.');
    text::law_pieces_give_the_text(s, '.');
    lemma_joined_chars(parts, '.', i);
    if s[i] != '.' {
        let (k, j) = choose|k: int, j: int|
            0 <= k < parts.len() && 0 <= j < parts[k].len() && s[i] == #[trigger] parts[k][j];
        assert(is_octet(parts[k]));
        assert(text::is_digit(parts[k][j]));
    }
}

proof fn lemma_group_characters(s: Seq<char>, ipv4_last: bool, i: int)
    requires
        groups_width(colon_groups(s), ipv4_last) >= 0,
        0 <= i < s.len(),
    ensures
        s[i] == '.' || s[i] == ':' || text::is_hex_digit(s[i]),
{
    let parts = text::pieces(s, ':');
    text::law_pieces_give_the_text(s, ':');
    lemma_joined_chars(parts, ':', i);
    if s[i] != ':' {
        let (k, j) = choose|k: int, j: int|
            0 <= k < parts.len() && 0 <= j < parts[k].len() && s[i] == #[trigger] parts[k][j];
        if is_hextet(parts[k]) {
            assert(text::is_hex_digit(parts[k][j]));
        } else {
            assert(k == parts.len() - 1);
            lemma_ipv4_characters(parts[k], j);
        }
    }
}

/// An address holds nothing but hexadecimal digits, dots and colons.
pub proof fn law_address_characters(s: Seq<char>, i: int)
    requires
        is_ip_address(s),
        0 <= i < s.len(),
    ensures
        s[i] == '.' || s[i] == ':' || ('0' <= s[i] && s[i] <= '9') || ('a' <= s[i] && s[i] <= 'f')
            || ('A' <= s[i] && s[i] <= 'F'),
{
    if is_ipv4(s) {
        lemma_ipv4_characters(s, i);
    } else {
        reveal_strlit("::");
        text::law_text_is_found_at_its_first_place(s, "::"@, 0);
        match text::text_index(s, "::"@, 0) {
            None => {
                lemma_group_characters(s, true, i);
            },
            Some(at) => {
                let found = s.subrange(at, at + 2);
                if i < at {
                    lemma_group_characters(s.take(at), false, i);
                } else if i >= at + 2 {
                    lemma_group_characters(s.skip(at + 2), true, i - at - 2);
                } else {
                    assert(found[i - at] == s[i]);
                    assert(found == "::"@);
                }
            },
        }
    }
}

proof fn lemma_octet(n: nat)
    requires
        n <= 255,
    ensures
        is_octet(text::decimal(n)),
        !text::decimal(n).contains('.'),
{
    text::lemma_decimal_round_trip(n);
    text::lemma_decimal_has_no_leading_zero(n);
    reveal_with_fuel(text::decimal, 3);
    assert forall|i: int| 0 <= i < text::decimal(n).len() implies text::decimal(n)[i] != '.' by {
        assert(text::is_digit(text::decimal(n)[i]));
    }
}

proof fn lemma_dotted(a: nat, b: nat, c: nat, d: nat)
    ensures
        text::joined_with(
            seq![text::decimal(a), text::decimal(b), text::decimal(c), text::decimal(d)],
            '.',
        ) == dotted(a, b, c, d),
{
    reveal_strlit(".");
    let parts = seq![text::decimal(a), text::decimal(b), text::decimal(c), text::decimal(d)];
    reveal_with_fuel(text::joined_with, 4);
    assert(parts.skip(1).skip(1).skip(1)[0] == text::decimal(d));
    assert(text::joined_with(parts, '.') =~= dotted(a, b, c, d));
}

proof fn lemma_no_colon_is_no_ipv6(s: Seq<char>)
    requires
        !s.contains(':'),
    ensures
        !is_ipv6(s),
{
    reveal_strlit("::");
    text::law_text_is_found_at_its_first_place(s, "::"@, 0);
    match text::text_index(s, "::"@, 0) {
        Some(at) => {
            assert(s.subrange(at, at + 2)[0] == s[at]);
            assert(s.contains(':'));
        },
        None => {
            if s.len() > 0 {
                text::law_joined_text_splits_again(seq![s], ':');
                assert(text::joined_with(seq![s], ':') == s);
            }
        },
    }
}

/// The addresses without a colon are the dotted forms of four numbers up to 255.
pub proof fn law_dotted_addresses(s: Seq<char>)
    requires
        !s.contains(':'),
    ensures
        is_ip_address(s) <==> exists|a: nat, b: nat, c: nat, d: nat|
            a <= 255 && b <= 255 && c <= 255 && d <= 255 && s == #[trigger] dotted(a, b, c, d),
{
    lemma_no_colon_is_no_ipv6(s);
    if is_ipv4(s) {
        let parts = text::pieces(s, '.');
        text::law_pieces_give_the_text(s, '.');
        let a = text::decimal_value(parts[0]);
        let b = text::decimal_value(parts[1]);
        let c = text::decimal_value(parts[2]);
        let d = text::decimal_value(parts[3]);
        text::law_digits_are_the_decimal_form(parts[0]);
        text::law_digits_are_the_decimal_form(parts[1]);
        text::law_digits_are_the_decimal_form(parts[2]);
        text::law_digits_are_the_decimal_form(parts[3]);
        lemma_dotted(a, b, c, d);
        assert(parts =~= seq![text::decimal(a), text::decimal(b), text::decimal(c), text::decimal(
            d,
        )]);
        assert(s == dotted(a, b, c, d));
    }
    if exists|a: nat, b: nat, c: nat, d: nat|
        a <= 255 && b <= 255 && c <= 255 && d <= 255 && s == #[trigger] dotted(a, b, c, d) {
        let (a, b, c, d) = choose|a: nat, b: nat, c: nat, d: nat|
            a <= 255 && b <= 255 && c <= 255 && d <= 255 && s == #[trigger] dotted(a, b, c, d);
        let parts = seq![text::decimal(a), text::decimal(b), text::decimal(c), text::decimal(d)];
        lemma_octet(a);
        lemma_octet(b);
        lemma_octet(c);
        lemma_octet(d);
        lemma_dotted(a, b, c, d);
        text::law_joined_text_splits_again(parts, '.');
        assert(text::pieces(s, '.') == parts);
    }
}

proof fn lemma_groups_joined(parts: Seq<Seq<char>>)
    requires
        forall|k: int| 0 <= k < parts.len() ==> is_group(#[trigger] parts[k]),
    ensures
        colon_groups(text::joined_with(parts, ':')) == parts,
        groups_width(parts, true) == parts.len(),
        groups_width(parts, false) == parts.len(),
        parts.len() > 0 ==> text::joined_with(parts, ':').len() > 0 && text::joined_with(
            parts,
            ':',
        )[0] != ':' && text::joined_with(parts, ':').last() != ':',
        forall|i: int|
            0 <= i < text::joined_with(parts, ':').len() - 1 ==> !(#[trigger] text::joined_with(
                parts,
                ':',
            )[i] == ':' && text::joined_with(parts, ':')[i + 1] == ':'),
        forall|i: int|
            0 <= i < text::joined_with(parts, ':').len() ==> (#[trigger] text::joined_with(
                parts,
                ':',
            )[i]) != '.',
    decreases parts.len(),
{
    let s = text::joined_with(parts, ':');
    if parts.len() > 0 {
        assert(is_group(parts[0]));
        assert forall|k: int| 0 <= k < parts.len() implies !(#[trigger] parts[k]).contains(':')
            && is_hextet(parts[k]) by {
            assert(is_group(parts[k]));
            assert forall|j: int| 0 <= j < parts[k].len() implies text::is_hex_digit(
                #[trigger] parts[k][j],
            ) by {}
        }
        text::law_joined_text_splits_again(parts, ':');
        if parts.len() > 1 {
            let rest = parts.skip(1);
            let tail = text::joined_with(rest, ':');
            let n = parts[0].len() as int;
            assert forall|k: int| 0 <= k < rest.len() implies is_group(#[trigger] rest[k]) by {
                assert(rest[k] == parts[k + 1]);
            }
            lemma_groups_joined(rest);
            assert(s =~= parts[0] + seq![':'] + tail);
            assert forall|i: int| 0 <= i < s.len() - 1 implies !(#[trigger] s[i] == ':' && s[i + 1]
                == ':') by {
                if i < n {
                    assert(s[i] == parts[0][i]);
                } else if i == n {
                    assert(s[i + 1] == tail[0]);
                } else {
                    assert(s[i] == tail[i - n - 1]);
                    assert(s[i + 1] == tail[i - n - 1 + 1]);
                }
            }
            assert forall|i: int| 0 <= i < s.len() implies (#[trigger] s[i]) != '.' by {
                if i < n {
                    assert(s[i] == parts[0][i]);
                } else if i > n {
                    assert(s[i] == tail[i - n - 1]);
                }
            }
            assert(s.last() == tail.last());
            assert(s[0] == parts[0][0]);
        }
    }
}

proof fn lemma_no_dot_is_no_ipv4(s: Seq<char>)
    requires
        forall|i: int| 0 <= i < s.len() ==> (#[trigger] s[i]) != '.',
    ensures
        !is_ipv4(s),
{
    assert(!s.contains('.'));
    text::law_joined_text_splits_again(seq![s], '.');
    assert(text::joined_with(seq![s], '.') == s);
}

/// Groups of hexadecimal digits with a colon between any two are an address exactly
/// if there are eight of them.
pub proof fn law_address_of_eight_groups(groups: Seq<Seq<char>>)
    requires
        groups.len() > 0,
        forall|k: int| 0 <= k < groups.len() ==> is_group(#[trigger] groups[k]),
    ensures
        is_ip_address(text::joined_with(groups, ':')) <==> groups.len() == 8,
{
    let s = text::joined_with(groups, ':');
    lemma_groups_joined(groups);
    lemma_no_dot_is_no_ipv4(s);
    reveal_strlit("::");
    text::law_text_is_found_at_its_first_place(s, "::"@, 0);
    match text::text_index(s, "::"@, 0) {
        Some(at) => {
            let found = s.subrange(at, at + 2);
            assert(found[0] == s[at] && found[1] == s[at + 1]);
            assert(found == "::"@);
            assert(false);
        },
        None => {},
    }
}

/// Two colons in a row stand for the groups that are missing: what stands around
/// them is an address exactly if one group or more is missing.
pub proof fn law_address_with_missing_groups(head: Seq<Seq<char>>, tail: Seq<Seq<char>>)
    requires
        forall|k: int| 0 <= k < head.len() ==> is_group(#[trigger] head[k]),
        forall|k: int| 0 <= k < tail.len() ==> is_group(#[trigger] tail[k]),
    ensures
        is_ip_address(text::joined_with(head, ':') + "::"@ + text::joined_with(tail, ':')) <==> (
        head.len() + tail.len() <= 7),
{
    let a = text::joined_with(head, ':');
    let b = text::joined_with(tail, ':');
    let s = a + "::"@ + b;
    let n = a.len() as int;
    lemma_groups_joined(head);
    lemma_groups_joined(tail);
    reveal_strlit("::");
    assert forall|i: int| 0 <= i < s.len() implies (#[trigger] s[i]) != '.' by {
        if i < n {
            assert(s[i] == a[i]);
        } else if i >= n + 2 {
            assert(s[i] == b[i - n - 2]);
        }
    }
    lemma_no_dot_is_no_ipv4(s);
    text::law_text_is_found_at_its_first_place(s, "::"@, 0);
    assert(s.subrange(n, n + 2) =~= "::"@);
    match text::text_index(s, "::"@, 0) {
        Some(at) => {
            if at < n {
                let found = s.subrange(at, at + 2);
                assert(found[0] == s[at] && found[1] == s[at + 1]);
                assert(s[at] == a[at]);
                if at + 1 < n {
                    assert(s[at + 1] == a[at + 1]);
                } else {
                    assert(a[at] == a.last());
                }
                assert(false);
            }
            assert(at == n);
            assert(s.take(n) =~= a);
            assert(s.skip(n + 2) =~= b);
        },
        None => {
            assert(false);
        },
    }
}

/// An address has two characters or more, and starts neither with a dot nor with a
/// bracket.
pub proof fn lemma_address_start(s: Seq<char>)
    requires
        is_ip_address(s),
    ensures
        s.len() > 1,
        s[0] != '.',
        s[0] != '[',
{
    reveal_strlit("::");
    if is_ipv4(s) {
        let parts = text::pieces(s, '.');
        text::law_pieces_give_the_text(s, '.');
        assert(is_octet(parts[0]) && is_octet(parts[1]));
        assert(text::is_digit(parts[0][0]));
        assert(s[0] == parts[0][0]);
    } else {
        text::law_text_is_found_at_its_first_place(s, "::"@, 0);
        match text::text_index(s, "::"@, 0) {
            Some(at) => {
                if at == 0 {
                    assert(s.subrange(0, 2)[0] == s[0]);
                } else {
                    let head = s.take(at);
                    let parts = text::pieces(head, ':');
                    text::law_pieces_give_the_text(head, ':');
                    lemma_first_group(head, false);
                    assert(s[0] == head[0]);
                }
            },
            None => {
                let parts = text::pieces(s, ':');
                text::law_pieces_give_the_text(s, ':');
                lemma_first_group(s, true);
            },
        }
    }
}

proof fn lemma_first_group(s: Seq<char>, ipv4_last: bool)
    requires
        s.len() > 0,
        groups_width(colon_groups(s), ipv4_last) >= 0,
        !ipv4_last || groups_width(colon_groups(s), ipv4_last) > 2,
    ensures
        text::is_hex_digit(s[0]),
        ipv4_last ==> s.len() > 1,
{
    let parts = text::pieces(s, ':');
    text::law_pieces_give_the_text(s, ':');
    assert(is_hextet(parts[0]));
    assert(text::is_hex_digit(parts[0][0]));
    assert(s[0] == parts[0][0]);
}

/// A text with neither a dot nor a colon is no address.
pub proof fn lemma_word_is_no_address(s: Seq<char>)
    requires
        !s.contains('.'),
        !s.contains(':'),
    ensures
        !is_ip_address(s),
{
    lemma_no_colon_is_no_ipv6(s);
    lemma_no_dot_is_no_ipv4(s);
}

/// The last groups may be written as the dotted form of four numbers, which stands
/// for two of them.
pub proof fn law_address_with_a_dotted_end(
    head: Seq<Seq<char>>,
    tail: Seq<Seq<char>>,
    a: nat,
    b: nat,
    c: nat,
    d: nat,
)
    requires
        forall|k: int| 0 <= k < head.len() ==> is_group(#[trigger] head[k]),
        forall|k: int| 0 <= k < tail.len() ==> is_group(#[trigger] tail[k]),
        a <= 255,
        b <= 255,
        c <= 255,
        d <= 255,
        head.len() + tail.len() + 2 <= 7,
    ensures
        is_ip_address(
            text::joined_with(head, ':') + "::"@ + text::joined_with(
                tail.push(dotted(a, b, c, d)),
                ':',
            ),
        ),
{
    let quad = dotted(a, b, c, d);
    let all = tail.push(quad);
    let x = text::joined_with(head, ':');
    let y = text::joined_with(all, ':');
    let s = x + "::"@ + y;
    let n = x.len() as int;
    lemma_groups_joined(head);
    reveal_strlit("::");
    reveal_strlit(".");
    assert(!quad.contains(':')) by {
        let parts = seq![text::decimal(a), text::decimal(b), text::decimal(c), text::decimal(d)];
        lemma_dotted(a, b, c, d);
        assert forall|i: int| 0 <= i < quad.len() implies quad[i] != ':' by {
            lemma_joined_chars(parts, '.', i);
            if quad[i] != '.' {
                let (k, j) = choose|k: int, j: int|
                    0 <= k < parts.len() && 0 <= j < parts[k].len() && quad[i]
                        == #[trigger] parts[k][j];
                text::lemma_decimal_round_trip(a);
                text::lemma_decimal_round_trip(b);
                text::lemma_decimal_round_trip(c);
                text::lemma_decimal_round_trip(d);
                assert(text::all_digits(parts[k]));
                assert(text::is_digit(parts[k][j]));
            }
        }
    }
    law_dotted_addresses(quad);
    assert(is_ip_address(quad));
    lemma_no_colon_is_no_ipv6(quad);
    assert(is_ipv4(quad));
    lemma_address_start(quad);
    assert forall|k: int| 0 <= k < all.len() implies !(#[trigger] all[k]).contains(':') by {
        if k < tail.len() {
            assert(is_group(tail[k]));
            assert(all[k] == tail[k]);
        }
    }
    text::law_joined_text_splits_again(all, ':');
    assert(y.len() > 0) by {
        lemma_joined_not_empty(all);
    }
    assert(colon_groups(y) == all);
    assert forall|i: int| 0 <= i < all.len() - 1 implies is_hextet(#[trigger] all[i]) by {
        assert(all[i] == tail[i]);
        assert(is_group(tail[i]));
        assert forall|j: int| 0 <= j < tail[i].len() implies text::is_hex_digit(
            #[trigger] tail[i][j],
        ) by {}
    }
    assert(groups_width(all, true) >= 0);
    assert(groups_width(all, true) <= all.len() + 1);
    text::law_text_is_found_at_its_first_place(s, "::"@, 0);
    assert(s.subrange(n, n + 2) =~= "::"@);
    match text::text_index(s, "::"@, 0) {
        Some(at) => {
            if at < n {
                let found = s.subrange(at, at + 2);
                assert(found[0] == s[at] && found[1] == s[at + 1]);
                assert(s[at] == x[at]);
                if at + 1 < n {
                    assert(s[at + 1] == x[at + 1]);
                } else {
                    assert(x[at] == x.last());
                }
                assert(false);
            }
            assert(s.take(n) =~= x);
            assert(s.skip(n + 2) =~= y);
        },
        None => {
            assert(false);
        },
    }
}

proof fn lemma_joined_not_empty(parts: Seq<Seq<char>>)
    requires
        parts.len() > 0,
        parts.last().len() > 0,
    ensures
        text::joined_with(parts, ':').len() > 0,
{
}

} // verus!
