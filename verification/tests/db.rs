use rsqlite_rsync::db::{
    after_pragma_step, backup_finish, backup_step, check, cut_length, file_failed, page_read,
    pragma_query, read_offset, serialize_failed, validate_page_no, write_offset, PragmaStep, MAX_PRAGMA_RETRIES,
    SQLITE_BUSY, SQLITE_DONE, SQLITE_ERROR, SQLITE_LOCKED, SQLITE_NOMEM, SQLITE_OK, SQLITE_ROW,
};
use rsqlite_rsync::error::SyncError;

#[test]
fn result_codes_are_those_of_sqlite() {
    assert_eq!(SQLITE_OK, libsqlite3_sys::SQLITE_OK);
    assert_eq!(SQLITE_ERROR, libsqlite3_sys::SQLITE_ERROR);
    assert_eq!(SQLITE_BUSY, libsqlite3_sys::SQLITE_BUSY);
    assert_eq!(SQLITE_LOCKED, libsqlite3_sys::SQLITE_LOCKED);
    assert_eq!(SQLITE_NOMEM, libsqlite3_sys::SQLITE_NOMEM);
    assert_eq!(SQLITE_ROW, libsqlite3_sys::SQLITE_ROW);
    assert_eq!(SQLITE_DONE, libsqlite3_sys::SQLITE_DONE);
}

#[test]
fn read_page_returns_correct_size() {
    let page_size = 4096;
    assert_eq!(read_offset(1, page_size).unwrap(), 0);
    let data = page_read(1, page_size, 4096, vec![7; 4096]).unwrap();
    assert_eq!(data.len(), page_size as usize);
}

#[test]
fn read_page_out_of_range_errors() {
    assert_eq!(read_offset(9999, 4096).unwrap(), 9998 * 4096);
    let result = page_read(9999, 4096, 0, vec![0; 4096]);
    assert_eq!(
        result.unwrap_err(),
        SyncError::sqlite(1, "page 9999 is out of range (read 0 of 4096 bytes)")
    );
}

#[test]
fn read_page_zero_errors() {
    assert!(validate_page_no(0).is_err());
    assert_eq!(
        read_offset(0, 4096).unwrap_err(),
        SyncError::sqlite(1, "page numbers are 1-indexed; page 0 is invalid")
    );
}

#[test]
fn write_page_zero_errors() {
    assert!(write_offset(0, 4096, &vec![0u8; 4096], true).is_err());
}

#[test]
fn failed_file_access_is_an_sqlite_error() {
    assert_eq!(
        file_failed("permission denied"),
        SyncError::sqlite(SQLITE_ERROR, "permission denied")
    );
}

#[test]
fn cut_leaves_whole_pages() {
    assert_eq!(cut_length(0, 4096, true).unwrap(), 0);
    assert_eq!(cut_length(3, 4096, true).unwrap(), 12288);
    assert_eq!(
        cut_length(u32::MAX, 65536, true).unwrap(),
        u32::MAX as u64 * 65536
    );
    assert_eq!(
        cut_length(3, 4096, false).unwrap_err(),
        SyncError::protocol("connection is read-only; cannot write pages")
    );
}

#[test]
fn pages_are_written_whole_and_only_where_writing_is_allowed() {
    assert_eq!(write_offset(3, 512, &[0; 512], true).unwrap(), 1024);
    assert_eq!(
        write_offset(3, 512, &[0; 511], true).unwrap_err(),
        SyncError::protocol("page 3 has 511 bytes, expected 512")
    );
    assert_eq!(
        write_offset(3, 512, &[0; 512], false).unwrap_err(),
        SyncError::protocol("connection is read-only; cannot write pages")
    );
    assert_eq!(
        read_offset(u32::MAX, 65536).unwrap(),
        (u32::MAX as u64 - 1) * 65536
    );
}

#[test]
fn result_codes_become_errors() {
    for ok in [SQLITE_OK, SQLITE_ROW, SQLITE_DONE] {
        assert!(check(ok, None).is_ok());
    }
    assert_eq!(
        check(SQLITE_BUSY, None).unwrap_err(),
        SyncError::sqlite(5, "SQLite error code 5")
    );
    assert_eq!(
        check(SQLITE_BUSY, Some("database is locked")).unwrap_err(),
        SyncError::sqlite(5, "database is locked")
    );
}

#[test]
fn pragma_is_read_again_while_the_database_is_locked() {
    assert_eq!(pragma_query("page_count"), "PRAGMA page_count");
    assert!(matches!(
        after_pragma_step("page_count", 0, SQLITE_ROW),
        PragmaStep::Value
    ));
    assert!(matches!(
        after_pragma_step("page_count", 0, SQLITE_BUSY),
        PragmaStep::Retry { delay_ms: 1 }
    ));
    assert!(matches!(
        after_pragma_step("page_count", 11, SQLITE_LOCKED),
        PragmaStep::Retry { delay_ms: 10 }
    ));
    match after_pragma_step("page_count", MAX_PRAGMA_RETRIES, SQLITE_DONE) {
        PragmaStep::Fail(e) => {
            assert_eq!(e, SyncError::sqlite(101, "PRAGMA page_count returned no rows"))
        }
        other => panic!("expected a failure, got {other:?}"),
    }
    match after_pragma_step("page_count", 0, SQLITE_ERROR) {
        PragmaStep::Fail(e) => assert_eq!(e, SyncError::sqlite(1, "PRAGMA page_count failed")),
        other => panic!("expected a failure, got {other:?}"),
    }
}

#[test]
fn backup_copies_all_data() {
    let done = backup_step(SQLITE_DONE).unwrap();
    assert!(done);
    assert!(!backup_step(SQLITE_OK).unwrap());
    backup_finish(SQLITE_OK).unwrap();
}

#[test]
fn failed_backups_say_where_they_failed() {
    assert_eq!(
        backup_step(SQLITE_BUSY).unwrap_err(),
        SyncError::sqlite(5, "sqlite3_backup_step failed")
    );
    assert_eq!(
        backup_finish(SQLITE_ERROR).unwrap_err(),
        SyncError::sqlite(1, "sqlite3_backup_finish failed")
    );
    assert_eq!(
        serialize_failed(),
        SyncError::sqlite(7, "sqlite3_serialize returned NULL")
    );
}
