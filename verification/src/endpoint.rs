//! Endpoint parsing for local and remote database paths.
//!
//! An [`Endpoint`] represents either a local filesystem path or a remote
//! SSH-accessible path in the form `[user@]host:path`.
use vstd::prelude::*;

use crate::error::SyncError;
use crate::ip;
use crate::text;

verus! {

/// An endpoint identifying a database location.
#[derive(Debug, Clone)]
pub enum Endpoint {
    Local(String),
    Remote { user_host: String, path: String },
}

/// The content of an [`Endpoint`].
#[verifier::ext_equal]
pub enum EndpointView {
    Local(Seq<char>),
    Remote { user_host: Seq<char>, path: Seq<char> },
}

impl View for Endpoint {
    type V = EndpointView;

    open spec fn view(&self) -> EndpointView {
        match *self {
            Endpoint::Local(p) => EndpointView::Local(p@),
            Endpoint::Remote { user_host, path } => EndpointView::Remote {
                user_host: user_host@,
                path: path@,
            },
        }
    }
}

/// Whether a text holds white space.
pub open spec fn has_space(s: Seq<char>) -> bool {
    exists|i: int| 0 <= i < s.len() && text::is_space(#[trigger] s[i])
}

/// Whether a text looks like a remote host: it holds neither a path separator
/// nor white space, does not start with a dot, and holds `@`, names the local
/// host, is an IP address, or holds a dot.
pub open spec fn host_like(host: Seq<char>) -> bool {
    &&& host.len() > 0
    &&& host[0] != '.'
    &&& !host.contains('/')
    &&& !host.contains('\\')
    &&& !has_space(host)
    &&& (host.contains('@') || text::same_ignoring_case(host, "localhost"@)
        || ip::is_ip_address(host) || host.contains('.'))
}

/// A single ASCII letter.
pub open spec fn drive_letter(host: Seq<char>) -> bool {
    host.len() == 1 && (('a' <= host[0] && host[0] <= 'z') || ('A' <= host[0] && host[0] <= 'Z'))
}

/// Whether a host and a path can name a remote database.
pub open spec fn remote_candidate(host: Seq<char>, path: Seq<char>) -> bool {
    !drive_letter(host) && path.len() > 0 && host_like(host)
}

/// The parts of a text of the form `[host]:path`.
pub open spec fn bracketed_parts(s: Seq<char>) -> Option<(Seq<char>, Seq<char>)> {
    match text::text_index(s, "]:"@, 0) {
        Some(i) => if s[0] == '[' && i > 1 && i + 2 < s.len() {
            Some((s.subrange(1, i), s.skip(i + 2)))
        } else {
            None
        },
        None => None,
    }
}

/// The parts of a text of the form `address:path`, split at the last colon.
pub open spec fn address_parts(s: Seq<char>) -> Option<(Seq<char>, Seq<char>)> {
    let i = text::last_index(s, ':');
    if i >= 0 && ip::is_ip_address(s.take(i)) && remote_candidate(s.take(i), s.skip(i + 1)) {
        Some((s.take(i), s.skip(i + 1)))
    } else {
        None
    }
}

/// The parts of a text of the form `host:path`, split at the first colon.
pub open spec fn host_parts(s: Seq<char>) -> Option<(Seq<char>, Seq<char>)> {
    match text::split_once_at(s, ':') {
        Some((host, path)) => if remote_candidate(host, path) {
            Some((host, path))
        } else {
            None
        },
        None => None,
    }
}

/// The host and the path of a remote endpoint, where a text names one.
pub open spec fn remote_parts(s: Seq<char>) -> Option<(Seq<char>, Seq<char>)> {
    match bracketed_parts(s) {
        Some(parts) => Some(parts),
        None => match address_parts(s) {
            Some(parts) => Some(parts),
            None => host_parts(s),
        },
    }
}

/// The endpoint that a text names.
pub open spec fn endpoint_of(s: Seq<char>) -> EndpointView {
    match remote_parts(s) {
        Some((user_host, path)) => EndpointView::Remote { user_host, path },
        None => EndpointView::Local(s),
    }
}

fn contains_space(s: &str) -> (r: bool)
    ensures
        r == has_space(s@),
{
    let v: Vec<char> = text::chars_of(s);
    let mut i: usize = 0;
    while i < v.len()
        invariant
            i <= v@.len(),
            v@ == s@,
            forall|j: int| 0 <= j < i ==> !text::is_space(#[trigger] v@[j]),
        decreases v@.len() - i,
    {
        if text::space(v[i]) {
            assert(text::is_space(s@[i as int]));
            return true;
        }
        i = i + 1;
    }
    false
}

/// The views of an optional pair of strings.
pub open spec fn pair_view(p: Option<(String, String)>) -> Option<(Seq<char>, Seq<char>)> {
    match p {
        Some((a, b)) => Some((a@, b@)),
        None => None,
    }
}

impl Endpoint {
    fn looks_like_remote_host(host_part: &str) -> (r: bool)
        ensures
            r == host_like(host_part@),
    {
        if host_part.is_empty() || text::contains_char(host_part, '/') || text::contains_char(
            host_part,
            '\\',
        ) || contains_space(host_part) {
            return false;
        }
        if host_part.get_char(0) == '.' {
            return false;
        }
        text::contains_char(host_part, '@') || text::eq_ignore_ascii_case(host_part, "localhost")
            || ip::ip_address(host_part) || text::contains_char(host_part, '.')
    }

    /// Parse a string into an endpoint.
    ///
    /// Strings of the form `[user@]host:path` are parsed as remote endpoints.
    /// Everything else is treated as a local filesystem path.
    ///
    /// A single letter before `:` is treated as a drive letter rather than a
    /// remote host.
    pub fn parse(s: &str) -> (r: Endpoint)
        ensures
            r@ == endpoint_of(s@),
    {
        match Endpoint::parse_remote_parts(s) {
            Some((user_host, path)) => Endpoint::Remote { user_host, path },
            None => Endpoint::Local(s.to_owned()),
        }
    }

    fn parse_remote_parts(s: &str) -> (r: Option<(String, String)>)
        ensures
            pair_view(r) == remote_parts(s@),
    {
        let v: Vec<char> = text::chars_of(s);
        let n: usize = v.len();
        proof {
            reveal_strlit("]:");
        }
        match text::find_text(&v, "]:") {
            Some(end_bracket) => {
                if v[0] == '[' && end_bracket > 1 && end_bracket + 2 < n {
                    let host: String = text::string_of(&v, 1, end_bracket);
                    let path: String = text::string_of(&v, end_bracket + 2, n);
                    assert(path@ == s@.skip(end_bracket + 2));
                    return Some((host, path));
                }
            },
            None => {},
        }
        match text::rfind(&v, ':') {
            Some(colon) => {
                let host_part: String = text::string_of(&v, 0, colon);
                let path_part: String = text::string_of(&v, colon + 1, n);
                assert(host_part@ == s@.take(colon as int));
                assert(path_part@ == s@.skip(colon + 1));
                if ip::ip_address(host_part.as_str()) && Endpoint::is_remote_candidate(
                    host_part.as_str(),
                    path_part.as_str(),
                ) {
                    return Some((host_part, path_part));
                }
            },
            None => {},
        }
        match text::split_once(s, ':') {
            Some((host_part, path_part)) => {
                if Endpoint::is_remote_candidate(host_part.as_str(), path_part.as_str()) {
                    return Some((host_part, path_part));
                }
            },
            None => {},
        }
        None
    }

    fn is_remote_candidate(host_part: &str, path_part: &str) -> (r: bool)
        ensures
            r == remote_candidate(host_part@, path_part@),
    {
        let v: Vec<char> = text::chars_of(host_part);
        let is_windows_drive: bool = v.len() == 1 && (('a' <= v[0] && v[0] <= 'z') || ('A' <= v[0]
            && v[0] <= 'Z'));
        !is_windows_drive && !path_part.is_empty() && Endpoint::looks_like_remote_host(host_part)
    }

    /// Returns `true` if this endpoint is remote.
    pub fn is_remote(&self) -> (r: bool)
        ensures
            r == (self@ is Remote),
    {
        match self {
            Endpoint::Remote { .. } => true,
            Endpoint::Local(_) => false,
        }
    }
}

/// How a database gets from its origin to its replica.
#[derive(Debug)]
pub enum SyncRoute {
    /// Both databases are local.
    Local { origin: String, replica: String },
    /// The origin is local, the replica is on another host.
    Push { origin: String, user_host: String, path: String },
    /// The origin is on another host, the replica is local.
    Pull { user_host: String, path: String, replica: String },
}

/// Whether a route is the one between two endpoints; there is none between two
/// remote endpoints.
pub open spec fn routes(route: SyncRoute, origin: EndpointView, replica: EndpointView) -> bool {
    match route {
        SyncRoute::Local { origin: o, replica: r } => origin == EndpointView::Local(o@) && replica
            == EndpointView::Local(r@),
        SyncRoute::Push { origin: o, user_host, path } => origin == EndpointView::Local(o@)
            && replica == (EndpointView::Remote { user_host: user_host@, path: path@ }),
        SyncRoute::Pull { user_host, path, replica: r } => origin == (EndpointView::Remote {
            user_host: user_host@,
            path: path@,
        }) && replica == EndpointView::Local(r@),
    }
}

impl SyncRoute {
    /// The route between the databases that two texts name.
    pub fn between(origin: &str, replica: &str) -> (r: Result<SyncRoute, SyncError>)
        ensures
            match r {
                Ok(route) => routes(route, endpoint_of(origin@), endpoint_of(replica@)),
                Err(e) => endpoint_of(origin@) is Remote && endpoint_of(replica@) is Remote
                    && e.is_protocol("at least one of ORIGIN or REPLICA must be local"@),
            },
    {
        match (Endpoint::parse(origin), Endpoint::parse(replica)) {
            (Endpoint::Local(o), Endpoint::Local(r)) => Ok(
                SyncRoute::Local { origin: o, replica: r },
            ),
            (Endpoint::Local(o), Endpoint::Remote { user_host, path }) => Ok(
                SyncRoute::Push { origin: o, user_host, path },
            ),
            (Endpoint::Remote { user_host, path }, Endpoint::Local(r)) => Ok(
                SyncRoute::Pull { user_host, path, replica: r },
            ),
            _ => Err(SyncError::protocol("at least one of ORIGIN or REPLICA must be local")),
        }
    }
}

/// A local endpoint keeps the whole text; a remote one has a host and a path,
/// neither of them empty.
pub proof fn law_endpoint_keeps_its_text(s: Seq<char>)
    ensures
        match endpoint_of(s) {
            EndpointView::Local(p) => p == s,
            EndpointView::Remote { user_host, path } => user_host.len() > 0 && path.len() > 0
                && user_host.len() + path.len() < s.len() && path == s.skip(s.len() - path.len()),
        },
{
    match bracketed_parts(s) {
        Some((host, path)) => {
            let i = text::text_index(s, "]:"@, 0)->0;
            assert(s.skip(s.len() - path.len()) == path);
        },
        None => match address_parts(s) {
            Some((host, path)) => {
                let i = text::last_index(s, ':');
                lemma_last_index_bound(s, ':');
                assert(s.skip(s.len() - path.len()) == path);
            },
            None => match host_parts(s) {
                Some((host, path)) => {
                    let i = text::first_index(s, ':');
                    lemma_first_index_bound(s, ':');
                    assert(s.skip(s.len() - path.len()) == path);
                },
                None => {},
            },
        },
    }
}

proof fn lemma_last_index_bound(s: Seq<char>, c: char)
    ensures
        -1 <= text::last_index(s, c) < s.len(),
    decreases s.len(),
{
    if s.len() > 0 {
        lemma_last_index_bound(s.drop_last(), c);
    }
}

proof fn lemma_first_index_bound(s: Seq<char>, c: char)
    ensures
        0 <= text::first_index(s, c) <= s.len(),
    decreases s.len(),
{
    if s.len() > 0 {
        lemma_first_index_bound(s.skip(1), c);
    }
}

/// A host by name or address: not empty, without a colon, a path separator or white
/// space, and neither in brackets nor starting with a dot.
pub open spec fn is_plain_host(host: Seq<char>) -> bool {
    &&& host.len() > 0
    &&& host[0] != '.'
    &&& host[0] != '['
    &&& forall|i: int|
        0 <= i < host.len() ==> (#[trigger] host[i]) != ':' && host[i] != '/' && host[i] != '\\'
            && !text::is_space(host[i])
}

proof fn lemma_host_and_path(host: Seq<char>, path: Seq<char>)
    requires
        is_plain_host(host),
    ensures
        ({
            let s = host + ":"@ + path;
            let i = text::last_index(s, ':');
            &&& bracketed_parts(s) is None
            &&& text::split_once_at(s, ':') == Some((host, path))
            &&& host.len() <= i < s.len()
            &&& s[i] == ':'
            &&& i == host.len() ==> s.take(i) == host && s.skip(i + 1) == path
            &&& i > host.len() ==> path.contains(':')
        }),
{
    reveal_strlit(":");
    let s = host + ":"@ + path;
    let n = host.len() as int;
    let i = text::last_index(s, ':');
    assert(":"@ =~= seq![':']);
    assert(!host.contains(':'));
    text::law_split_once(host, path, ':');
    text::law_last_index(s, ':');
    assert(s[n] == ':');
    assert(s[0] == host[0]);
    if i == n {
        assert(s.take(i) =~= host);
        assert(s.skip(i + 1) =~= path);
    } else {
        assert(path[i - n - 1] == s[i]);
    }
}

proof fn lemma_plain_host_is_host_like(host: Seq<char>)
    requires
        is_plain_host(host),
        host.contains('@') || host.contains('.') || text::same_ignoring_case(host, "localhost"@)
            || ip::is_ip_address(host),
    ensures
        host_like(host),
{
    assert(!host.contains('/') && !host.contains('\\'));
}

/// `user@host:path` names the path on that host, whatever the path is.
pub proof fn law_user_at_host_names_a_remote_path(host: Seq<char>, path: Seq<char>)
    requires
        is_plain_host(host),
        host.contains('@'),
        path.len() > 0,
    ensures
        endpoint_of(host + ":"@ + path) == (EndpointView::Remote { user_host: host, path }),
{
    let s = host + ":"@ + path;
    let i = text::last_index(s, ':');
    lemma_host_and_path(host, path);
    lemma_plain_host_is_host_like(host);
    let k = choose|k: int| 0 <= k < host.len() && host[k] == '@';
    assert(s.take(i)[k] == '@');
    if ip::is_ip_address(s.take(i)) {
        ip::law_address_characters(s.take(i), k);
    }
}

/// `host.name:path` names the path on that host, whatever the path is, unless the
/// text up to its last colon is an address.
pub proof fn law_dotted_host_names_a_remote_path(host: Seq<char>, path: Seq<char>)
    requires
        is_plain_host(host),
        host.len() > 1,
        host.contains('.'),
        path.len() > 0,
        forall|k: int|
            host.len() < k < (host + ":"@ + path).len() && (host + ":"@ + path)[k] == ':'
                ==> !ip::is_ip_address(#[trigger] (host + ":"@ + path).take(k)),
    ensures
        endpoint_of(host + ":"@ + path) == (EndpointView::Remote { user_host: host, path }),
{
    lemma_host_and_path(host, path);
    lemma_plain_host_is_host_like(host);
}

/// `localhost:path`, in any letter case, names the path on the local host.
pub proof fn law_localhost_names_a_remote_path(host: Seq<char>, path: Seq<char>)
    requires
        text::ascii_lowered(host) == "localhost"@,
        path.len() > 0,
    ensures
        endpoint_of(host + ":"@ + path) == (EndpointView::Remote { user_host: host, path }),
{
    reveal_strlit("localhost");
    let s = host + ":"@ + path;
    let i = text::last_index(s, ':');
    let low = text::ascii_lowered(host);
    assert(low.len() == host.len());
    assert("localhost"@.len() == 9);
    assert(host.len() == 9);
    assert forall|k: int| 0 <= k < host.len() implies (#[trigger] host[k]) != ':' && host[k] != '/'
        && host[k] != '\\' && host[k] != '.' && host[k] != '[' && !text::is_space(host[k])
        && text::ascii_lower(host[k]) == text::ascii_lower("localhost"@[k]) by {
        assert(low[k] == "localhost"@[k]);
    }
    lemma_host_and_path(host, path);
    lemma_plain_host_is_host_like(host);
    assert(low[0] == 'l');
    assert(s.take(i)[0] == host[0]);
    if ip::is_ip_address(s.take(i)) {
        ip::law_address_characters(s.take(i), 0);
    }
}

/// `address:path` names the path on the host with that address, where the path holds
/// no colon.
pub proof fn law_address_names_a_remote_path(address: Seq<char>, path: Seq<char>)
    requires
        ip::is_ip_address(address),
        path.len() > 0,
        !path.contains(':'),
    ensures
        endpoint_of(address + ":"@ + path) == (EndpointView::Remote { user_host: address, path }),
{
    reveal_strlit(":");
    let s = address + ":"@ + path;
    let n = address.len() as int;
    text::law_last_index(s, ':');
    assert(s[n] == ':');
    if text::last_index(s, ':') > n {
        assert(path[text::last_index(s, ':') - n - 1] == ':');
    }
    assert(s.take(n) =~= address);
    assert(s.skip(n + 1) =~= path);
    ip::lemma_address_start(address);
    assert(s[0] == address[0]);
    ip::law_address_characters(address, 0);
    assert forall|k: int| 0 <= k < address.len() implies (#[trigger] address[k]) != '/'
        && address[k] != '\\' && !text::is_space(address[k]) by {
        ip::law_address_characters(address, k);
    }
    assert(!address.contains('/') && !address.contains('\\'));
}

/// `[host]:path` names the path on that host, whatever both are.
pub proof fn law_bracketed_host_names_a_remote_path(host: Seq<char>, path: Seq<char>)
    requires
        host.len() > 0,
        path.len() > 0,
        !host.contains(']'),
    ensures
        endpoint_of("["@ + host + "]:"@ + path) == (EndpointView::Remote { user_host: host, path }),
{
    reveal_strlit("[");
    reveal_strlit("]:");
    let s = "["@ + host + "]:"@ + path;
    let n = host.len() as int + 1;
    assert(s.subrange(n, n + 2) =~= "]:"@);
    text::law_text_is_found_at_its_first_place(s, "]:"@, 0);
    match text::text_index(s, "]:"@, 0) {
        Some(i) => {
            if i < n {
                assert(s.subrange(i, i + 2)[0] == s[i]);
                if i > 0 {
                    assert(s[i] == host[i - 1]);
                }
                assert(false);
            }
        },
        None => {},
    }
    assert(s.subrange(1, n) =~= host);
    assert(s.skip(n + 2) =~= path);
}

/// A text is a local path where it holds no colon, where it ends with its only one,
/// and where a path separator or a white space comes before its first one.
pub proof fn law_paths_are_local(s: Seq<char>, k: int)
    requires
        s.len() > 0 ==> s[0] != '[',
        ({
            ||| !s.contains(':')
            ||| text::first_index(s, ':') == s.len() - 1
            ||| 0 <= k < text::first_index(s, ':') && (s[k] == '/' || s[k] == '\\'
                || text::is_space(s[k]))
        }),
    ensures
        endpoint_of(s) == EndpointView::Local(s),
{
    let f = text::first_index(s, ':');
    let i = text::last_index(s, ':');
    reveal_strlit("]:");
    text::law_first_index(s, ':');
    text::law_last_index(s, ':');
    text::law_text_is_found_at_its_first_place(s, "]:"@, 0);
    assert(bracketed_parts(s) is None);
    if s.contains(':') {
        if 0 <= k < f && (s[k] == '/' || s[k] == '\\' || text::is_space(s[k])) {
            assert(f <= i);
            assert(s.take(i)[k] == s[k] && s.take(f)[k] == s[k]);
            if ip::is_ip_address(s.take(i)) {
                ip::law_address_characters(s.take(i), k);
            }
            assert(!host_like(s.take(f)));
        }
    }
}

/// A single letter before a colon and a path separator is a drive.
pub proof fn law_drives_are_local(letter: char, rest: Seq<char>)
    requires
        ('a' <= letter && letter <= 'z') || ('A' <= letter && letter <= 'Z'),
        rest.len() > 0 ==> rest[0] == '/' || rest[0] == '\\',
    ensures
        endpoint_of(seq![letter] + ":"@ + rest) == EndpointView::Local(
            seq![letter] + ":"@ + rest,
        ),
{
    reveal_strlit(":");
    let host = seq![letter];
    let s = host + ":"@ + rest;
    let i = text::last_index(s, ':');
    lemma_host_and_path(host, rest);
    if i > 1 {
        assert(s.take(i)[2] == rest[0]);
        if ip::is_ip_address(s.take(i)) {
            ip::law_address_characters(s.take(i), 2);
        }
    }
}

/// A plain word before a colon is no host: one without `@`, without a dot, and other
/// than `localhost`.
pub proof fn law_plain_words_are_no_hosts(host: Seq<char>, path: Seq<char>)
    requires
        is_plain_host(host),
        !host.contains('@'),
        !host.contains('.'),
        text::ascii_lowered(host) != "localhost"@,
        !path.contains(':'),
    ensures
        endpoint_of(host + ":"@ + path) == EndpointView::Local(host + ":"@ + path),
{
    lemma_host_and_path(host, path);
    text::law_case_alone_is_ignored(host, "localhost"@);
    lemma_localhost_is_lower();
    ip::lemma_word_is_no_address(host);
}

proof fn lemma_localhost_is_lower()
    ensures
        text::ascii_lowered("localhost"@) == "localhost"@,
{
    reveal_strlit("localhost");
    assert(text::ascii_lowered("localhost"@) =~= "localhost"@);
}

/// Data goes from the origin to the replica: it is copied here where both are local,
/// pushed where only the origin is and pulled where only the replica is, from and to
/// the places that the two texts name.
pub proof fn law_route_leads_from_origin_to_replica(
    route: SyncRoute,
    origin: EndpointView,
    replica: EndpointView,
)
    requires
        routes(route, origin, replica),
    ensures
        route is Local <==> origin is Local && replica is Local,
        route is Push <==> origin is Local && replica is Remote,
        route is Pull <==> origin is Remote && replica is Local,
        route matches SyncRoute::Local { origin: o, replica: r } ==> origin == EndpointView::Local(
            o@,
        ) && replica == EndpointView::Local(r@),
        route matches SyncRoute::Push { origin: o, user_host, path } ==> origin
            == EndpointView::Local(o@) && replica == (EndpointView::Remote {
            user_host: user_host@,
            path: path@,
        }),
        route matches SyncRoute::Pull { user_host, path, replica: r } ==> origin == (
        EndpointView::Remote { user_host: user_host@, path: path@ }) && replica
            == EndpointView::Local(r@),
{
}

} // verus!
