use rsqlite_rsync::endpoint::{Endpoint, SyncRoute};

fn local(s: &str) -> bool {
    matches!(Endpoint::parse(s), Endpoint::Local(p) if p == s)
}

#[test]
fn parse_local_paths() {
    assert!(local("/var/lib/sqlite/db.sqlite"));
    assert!(local("relative/path/db.sqlite"));
    assert!(local("C:\\data\\test.db"));
    assert!(local("d:/database.db"));
}

#[test]
fn parse_remote_paths() {
    assert!(matches!(
        Endpoint::parse("user@example.com:/data/origin.db"),
        Endpoint::Remote { ref user_host, ref path }
            if user_host == "user@example.com" && path == "/data/origin.db"
    ));
    assert!(matches!(
        Endpoint::parse("db.internal.net:/var/db/app.db"),
        Endpoint::Remote { ref user_host, ref path }
            if user_host == "db.internal.net" && path == "/var/db/app.db"
    ));
    assert!(matches!(
        Endpoint::parse("localhost:/data/test.db"),
        Endpoint::Remote { ref user_host, ref path }
            if user_host == "localhost" && path == "/data/test.db"
    ));
    assert!(matches!(
        Endpoint::parse("192.168.1.50:/data/test.db"),
        Endpoint::Remote { ref user_host, ref path }
            if user_host == "192.168.1.50" && path == "/data/test.db"
    ));
}

#[test]
fn parse_bare_token_colon_treated_as_local() {
    // A token without dot/at/ip/localhost is treated as local
    assert!(local("somedir:file.db"));
}

#[test]
fn parse_bracketed_ipv6_with_content_is_remote() {
    assert!(matches!(
        Endpoint::parse("[fe80::1]:/data/db.sqlite"),
        Endpoint::Remote { ref user_host, ref path }
            if user_host == "fe80::1" && path == "/data/db.sqlite"
    ));
}

#[test]
fn parse_host_starting_with_dot_is_local() {
    // A leading `.` is no host, in spite of the dot.
    assert!(matches!(Endpoint::parse(".hidden:path"), Endpoint::Local(_)));
}

#[test]
fn parse_bracketed_ipv6_with_empty_host_or_path_falls_through() {
    assert!(matches!(Endpoint::parse("[]:/data/db.sqlite"), Endpoint::Local(_)));
    assert!(matches!(Endpoint::parse("[fe80::1]:"), Endpoint::Local(_)));
}

#[test]
fn is_remote_predicate() {
    assert!(!Endpoint::Local("foo".to_string()).is_remote());
    assert!(Endpoint::Remote {
        user_host: "host".into(),
        path: "path".into()
    }
    .is_remote());
}

#[test]
fn routes_cover_local_push_and_pull() {
    assert!(matches!(
        SyncRoute::between("a.db", "b.db"),
        Ok(SyncRoute::Local { origin, replica }) if origin == "a.db" && replica == "b.db"
    ));
    assert!(matches!(
        SyncRoute::between("a.db", "me@host:/b.db"),
        Ok(SyncRoute::Push { origin, user_host, path })
            if origin == "a.db" && user_host == "me@host" && path == "/b.db"
    ));
    assert!(matches!(
        SyncRoute::between("me@host:/a.db", "b.db"),
        Ok(SyncRoute::Pull { user_host, path, replica })
            if user_host == "me@host" && path == "/a.db" && replica == "b.db"
    ));
}

#[test]
fn two_remote_endpoints_are_refused() {
    let err = SyncRoute::between("me@one:/a.db", "me@two:/b.db").unwrap_err();
    assert_eq!(
        err.display(),
        "Protocol error: at least one of ORIGIN or REPLICA must be local"
    );
}

#[test]
fn endpoint_parser_treats_common_local_colon_paths_as_local() {
    assert!(matches!(
        Endpoint::parse("./data:2026.db"),
        Endpoint::Local(_)
    ));
    assert!(matches!(
        Endpoint::parse(".hidden:2026.db"),
        Endpoint::Local(_)
    ));
    assert!(matches!(
        Endpoint::parse("data:2026.db"),
        Endpoint::Local(_)
    ));
    assert!(matches!(
        Endpoint::parse("./relative:withcolon"),
        Endpoint::Local(_)
    ));
    assert!(matches!(
        Endpoint::parse("C:\\tmp\\db.sqlite"),
        Endpoint::Local(_)
    ));
}

#[test]
fn endpoint_parser_accepts_remote_shapes() {
    assert!(matches!(
        Endpoint::parse("user@example.com:/tmp/db.sqlite"),
        Endpoint::Remote { .. }
    ));
    assert!(matches!(
        Endpoint::parse("localhost:/tmp/db.sqlite"),
        Endpoint::Remote { .. }
    ));
    assert!(matches!(
        Endpoint::parse("127.0.0.1:/tmp/db.sqlite"),
        Endpoint::Remote { .. }
    ));
    assert!(matches!(
        Endpoint::parse("[fe80::1]:/tmp/db.sqlite"),
        Endpoint::Remote { .. }
    ));
    assert!(matches!(
        Endpoint::parse("fe80::1:/tmp/db.sqlite"),
        Endpoint::Remote { .. }
    ));
    assert!(matches!(
        Endpoint::parse("user@example.com:/tmp/path:withcolon.sqlite"),
        Endpoint::Remote { .. }
    ));
}
