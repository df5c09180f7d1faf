use rsqlite_rsync::error::SyncError;

#[test]
fn test_sync_error_display_and_constructors() {
    let sqlite_err = SyncError::sqlite(5, "database is locked");
    assert_eq!(
        sqlite_err.display(),
        "SQLite error (code 5): database is locked"
    );

    let io_err = SyncError::Io(
        std::io::Error::new(std::io::ErrorKind::NotFound, "file not found").to_string(),
    );
    assert_eq!(io_err.display(), "I/O error: file not found");

    let proto_err = SyncError::Protocol("bad version".into());
    assert_eq!(proto_err.display(), "Protocol error: bad version");

    let remote_err = SyncError::RemoteLaunch("ssh died".into());
    assert_eq!(
        remote_err.display(),
        "Failed to launch remote endpoint: ssh died"
    );

    let net_err = SyncError::Network("connection refused".into());
    assert_eq!(net_err.display(), "Network error: connection refused");

    let page_mismatch = SyncError::PageSizeMismatch {
        origin: 4096,
        replica: 1024,
    };
    assert_eq!(
        page_mismatch.display(),
        "Page-size mismatch: origin=4096, replica=1024"
    );

    let busy_err = SyncError::Busy("locked by reader".into());
    assert_eq!(
        busy_err.display(),
        "Database busy / locked: locked by reader"
    );

    let codec_err = SyncError::Codec("invalid frame".into());
    assert_eq!(codec_err.display(), "Codec error: invalid frame");
}

#[test]
fn negative_codes_are_shown_with_their_sign() {
    assert_eq!(
        SyncError::sqlite(i32::MIN, "x").display(),
        "SQLite error (code -2147483648): x"
    );
}
