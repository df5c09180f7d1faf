//! Page access to a database file and the meaning of SQLite's result codes.
use vstd::prelude::*;

use crate::error::{Result, SyncError};
use crate::text;

verus! {

/// The operation succeeded.
pub const SQLITE_OK: i32 = 0;

/// A generic error.
pub const SQLITE_ERROR: i32 = 1;

/// The database file is locked by another connection.
pub const SQLITE_BUSY: i32 = 5;

/// A table of the database is locked.
pub const SQLITE_LOCKED: i32 = 6;

/// Memory could not be allocated.
pub const SQLITE_NOMEM: i32 = 7;

/// A step has another row ready.
pub const SQLITE_ROW: i32 = 100;

/// A step has finished.
pub const SQLITE_DONE: i32 = 101;

/// How often the read of a pragma is retried.
pub const MAX_PRAGMA_RETRIES: u64 = 12;

/// A value of SQLite. A float is kept as its IEEE 754 bits.
#[derive(Debug, PartialEq, Eq)]
pub enum SqlValue {
    Null,
    Integer(i64),
    Float(u64),
    Text(String),
    Blob(Vec<u8>),
}

/// Whether an error is an SQLite error with this code and text.
pub open spec fn is_sqlite_error(e: SyncError, code: i32, msg: Seq<char>) -> bool {
    e matches SyncError::Sqlite { code: c, msg: m } && c == code && m@ == msg
}

/// Whether a result code stands for success.
pub open spec fn is_success(rc: i32) -> bool {
    rc == SQLITE_OK || rc == SQLITE_DONE || rc == SQLITE_ROW
}

/// The outcome that a result code stands for. The message is that of the
/// connection, where there is one.
pub fn check(rc: i32, message: Option<&str>) -> (r: Result<()>)
    ensures
        r is Ok <==> is_success(rc),
        r is Ok <==> (rc == SQLITE_OK || rc == SQLITE_DONE || rc == SQLITE_ROW),
        r matches Err(e) ==> is_sqlite_error(
            e,
            rc,
            match message {
                Some(m) => m@,
                None => "SQLite error code "@ + text::signed_decimal(rc as int),
            },
        ),
{
    if rc == SQLITE_OK || rc == SQLITE_DONE || rc == SQLITE_ROW {
        return Ok(());
    }
    let msg: String = match message {
        Some(m) => m.to_owned(),
        None => {
            let mut s: String = "SQLite error code ".to_owned();
            s.append(text::i64_text(rc as i64).as_str());
            s
        },
    };
    Err(SyncError::Sqlite { code: rc, msg })
}

/// Whether this is the number of a page.
pub fn validate_page_no(page_no: u32) -> (r: Result<()>)
    ensures
        r is Ok <==> page_no > 0,
        r matches Err(e) ==> e.is_protocol("page numbers are 1-indexed; page 0 is invalid"@),
{
    if page_no == 0 {
        return Err(SyncError::protocol("page numbers are 1-indexed; page 0 is invalid"));
    }
    Ok(())
}

/// Where a page begins in the database file.
pub open spec fn page_offset(page_no: u32, page_size: u32) -> int {
    (page_no - 1) * page_size
}

fn offset_of(page_no: u32, page_size: u32) -> (r: u64)
    requires
        page_no > 0,
    ensures
        r == page_offset(page_no, page_size),
{
    assert((page_no - 1) * page_size <= 0xFFFF_FFFF * 0xFFFF_FFFF) by (nonlinear_arith)
        requires
            0 < page_no <= 0xFFFF_FFFF,
            page_size <= 0xFFFF_FFFF,
    ;
    assert((page_no - 1) * page_size >= 0) by (nonlinear_arith)
        requires
            0 < page_no,
            page_size >= 0,
    ;
    (page_no - 1) as u64 * page_size as u64
}

/// Where to read a page from.
pub fn read_offset(page_no: u32, page_size: u32) -> (r: Result<u64>)
    ensures
        match r {
            Ok(offset) => page_no > 0 && offset == page_offset(page_no, page_size),
            Err(e) => page_no == 0 && is_sqlite_error(
                e,
                SQLITE_ERROR,
                "page numbers are 1-indexed; page 0 is invalid"@,
            ),
        },
{
    if page_no == 0 {
        return Err(
            SyncError::sqlite(SQLITE_ERROR, "page numbers are 1-indexed; page 0 is invalid"),
        );
    }
    Ok(offset_of(page_no, page_size))
}

/// The error of a database file that could not be read or written.
pub fn file_failed(error: &str) -> (r: SyncError)
    ensures
        is_sqlite_error(r, SQLITE_ERROR, error@),
{
    SyncError::sqlite(SQLITE_ERROR, error)
}

/// The page that a read gave, where all of it came.
pub fn page_read(page_no: u32, page_size: u32, read: usize, buffer: Vec<u8>) -> (r: Result<Vec<u8>>)
    ensures
        match r {
            Ok(page) => read == page_size && page == buffer,
            Err(e) => read != page_size && is_sqlite_error(
                e,
                SQLITE_ERROR,
                "page "@ + text::decimal(page_no as nat) + " is out of range (read "@
                    + text::decimal(read as nat) + " of "@ + text::decimal(page_size as nat)
                    + " bytes)"@,
            ),
        },
{
    if read as u64 != page_size as u64 {
        let mut m: String = "page ".to_owned();
        m.append(text::u64_text(page_no as u64).as_str());
        m.append(" is out of range (read ");
        m.append(text::u64_text(read as u64).as_str());
        m.append(" of ");
        m.append(text::u64_text(page_size as u64).as_str());
        m.append(" bytes)");
        return Err(SyncError::Sqlite { code: SQLITE_ERROR, msg: m });
    }
    Ok(buffer)
}

/// What speaks against writing a page.
pub open spec fn write_refusal(
    page_no: u32,
    page_size: u32,
    len: nat,
    writable: bool,
) -> Option<Seq<char>> {
    if page_no == 0 {
        Some("page numbers are 1-indexed; page 0 is invalid"@)
    } else if len != page_size {
        Some(
            "page "@ + text::decimal(page_no as nat) + " has "@ + text::decimal(len)
                + " bytes, expected "@ + text::decimal(page_size as nat),
        )
    } else if !writable {
        Some("connection is read-only; cannot write pages"@)
    } else {
        None
    }
}

/// Where to write a page to.
pub fn write_offset(page_no: u32, page_size: u32, data: &[u8], writable: bool) -> (r: Result<u64>)
    ensures
        match r {
            Ok(offset) => write_refusal(page_no, page_size, data@.len(), writable) is None
                && offset == page_offset(page_no, page_size),
            Err(e) => {
                let refusal = write_refusal(page_no, page_size, data@.len(), writable);
                refusal is Some && e.is_protocol(refusal->0)
            },
        },
{
    match validate_page_no(page_no) {
        Err(e) => {
            return Err(e);
        },
        Ok(()) => {},
    }
    if data.len() as u64 != page_size as u64 {
        let mut m: String = "page ".to_owned();
        m.append(text::u64_text(page_no as u64).as_str());
        m.append(" has ");
        m.append(text::u64_text(data.len() as u64).as_str());
        m.append(" bytes, expected ");
        m.append(text::u64_text(page_size as u64).as_str());
        return Err(SyncError::Protocol(m));
    }
    if !writable {
        return Err(SyncError::protocol("connection is read-only; cannot write pages"));
    }
    Ok(offset_of(page_no, page_size))
}

/// Different pages occupy different bytes of the database file, and page 1
/// stands at its beginning.
pub proof fn law_pages_do_not_overlap(a: u32, b: u32, page_size: u32)
    requires
        0 < a,
        a < b,
    ensures
        page_offset(1, page_size) == 0,
        page_offset(a, page_size) + page_size <= page_offset(b, page_size),
{
    assert((a - 1) * page_size + page_size <= (b - 1) * page_size) by (nonlinear_arith)
        requires
            a < b,
            page_size >= 0,
    ;
}

/// The length of the database file when it is cut behind its first `page_count`
/// pages.
pub fn cut_length(page_count: u32, page_size: u32, writable: bool) -> (r: Result<u64>)
    ensures
        match r {
            Ok(length) => writable && length == page_count * page_size,
            Err(e) => !writable && e.is_protocol("connection is read-only; cannot write pages"@),
        },
{
    if !writable {
        return Err(SyncError::protocol("connection is read-only; cannot write pages"));
    }
    assert(0 <= page_count * page_size <= 0xFFFF_FFFF * 0xFFFF_FFFF) by (nonlinear_arith)
        requires
            0 <= page_count <= 0xFFFF_FFFF,
            0 <= page_size <= 0xFFFF_FFFF,
    ;
    Ok(page_count as u64 * page_size as u64)
}

/// A cut keeps exactly the first pages: each of them lies before it, and every
/// other page behind it.
pub proof fn law_cut_keeps_first_pages(page_no: u32, page_count: u32, page_size: u32)
    requires
        0 < page_no,
    ensures
        page_no <= page_count ==> page_offset(page_no, page_size) + page_size <= page_count
            * page_size,
        page_no > page_count ==> page_offset(page_no, page_size) >= page_count * page_size,
{
    let n = page_no as int;
    let count = page_count as int;
    let size = page_size as int;
    assert((n - 1) * size + size == n * size) by (nonlinear_arith);
    if n <= count {
        assert(n * size <= count * size) by (nonlinear_arith)
            requires
                n <= count,
                0 <= size,
        ;
    } else {
        assert((n - 1) * size >= count * size) by (nonlinear_arith)
            requires
                n - 1 >= count,
                0 <= size,
        ;
    }
}

/// The query of a pragma.
pub fn pragma_query(pragma: &str) -> (r: String)
    ensures
        r@ == "PRAGMA "@ + pragma@,
{
    let mut s: String = "PRAGMA ".to_owned();
    s.append(pragma);
    s
}

/// What follows the step of a pragma query.
#[derive(Debug)]
pub enum PragmaStep {
    /// The row holds the value.
    Value,
    /// Query again after so many milliseconds.
    Retry { delay_ms: u64 },
    /// The pragma cannot be read.
    Fail(SyncError),
}

/// Whether a pragma query that gave the result code `rc` is made again after the
/// given attempt, counted from 0.
pub open spec fn pragma_is_retried(rc: i32, attempt: u64) -> bool {
    (rc == SQLITE_BUSY || rc == SQLITE_LOCKED || rc == SQLITE_DONE) && attempt < MAX_PRAGMA_RETRIES
}

/// The milliseconds to wait after the given attempt, counted from 0.
pub open spec fn pragma_delay_ms(attempt: u64) -> u64 {
    if attempt < 9 {
        (attempt + 1) as u64
    } else {
        10
    }
}

/// What follows the step of a pragma query that gave the result code `rc` on
/// the given attempt, counted from 0.
pub fn after_pragma_step(pragma: &str, attempt: u64, rc: i32) -> (r: PragmaStep)
    requires
        attempt <= MAX_PRAGMA_RETRIES,
    ensures
        if rc == SQLITE_ROW {
            r is Value
        } else if (rc == SQLITE_BUSY || rc == SQLITE_LOCKED || rc == SQLITE_DONE) && attempt
            < MAX_PRAGMA_RETRIES {
            r matches PragmaStep::Retry { delay_ms } && delay_ms == if attempt + 1 < 10 {
                attempt + 1
            } else {
                10
            }
        } else {
            r matches PragmaStep::Fail(e) && is_sqlite_error(
                e,
                rc,
                "PRAGMA "@ + pragma@ + if rc == SQLITE_DONE {
                    " returned no rows"@
                } else {
                    " failed"@
                },
            )
        },
        r is Retry <==> pragma_is_retried(rc, attempt),
        r matches PragmaStep::Retry { delay_ms } ==> delay_ms == pragma_delay_ms(attempt),
{
    if rc == SQLITE_ROW {
        return PragmaStep::Value;
    }
    if (rc == SQLITE_BUSY || rc == SQLITE_LOCKED || rc == SQLITE_DONE) && attempt
        < MAX_PRAGMA_RETRIES {
        let delay_ms: u64 = if attempt + 1 < 10 {
            attempt + 1
        } else {
            10
        };
        return PragmaStep::Retry { delay_ms };
    }
    let mut m: String = pragma_query(pragma);
    if rc == SQLITE_DONE {
        m.append(" returned no rows");
    } else {
        m.append(" failed");
    }
    PragmaStep::Fail(SyncError::Sqlite { code: rc, msg: m })
}

/// Whether a backup is complete, from the result code of its step.
pub fn backup_step(rc: i32) -> (r: Result<bool>)
    ensures
        match r {
            Ok(done) => (rc == SQLITE_DONE && done) || (rc == SQLITE_OK && !done),
            Err(e) => rc != SQLITE_DONE && rc != SQLITE_OK && is_sqlite_error(
                e,
                rc,
                "sqlite3_backup_step failed"@,
            ),
        },
{
    if rc == SQLITE_DONE {
        Ok(true)
    } else if rc == SQLITE_OK {
        Ok(false)
    } else {
        Err(SyncError::Sqlite { code: rc, msg: "sqlite3_backup_step failed".to_owned() })
    }
}

/// Whether a backup ended well, from the result code of its end.
pub fn backup_finish(rc: i32) -> (r: Result<()>)
    ensures
        match r {
            Ok(()) => rc == SQLITE_DONE || rc == SQLITE_OK,
            Err(e) => rc != SQLITE_DONE && rc != SQLITE_OK && is_sqlite_error(
                e,
                rc,
                "sqlite3_backup_finish failed"@,
            ),
        },
{
    if rc == SQLITE_DONE || rc == SQLITE_OK {
        Ok(())
    } else {
        Err(SyncError::Sqlite { code: rc, msg: "sqlite3_backup_finish failed".to_owned() })
    }
}

/// The error of a database that could not be serialised.
pub fn serialize_failed() -> (r: SyncError)
    ensures
        is_sqlite_error(r, SQLITE_NOMEM, "sqlite3_serialize returned NULL"@),
{
    SyncError::Sqlite { code: SQLITE_NOMEM, msg: "sqlite3_serialize returned NULL".to_owned() }
}

/// A page is written exactly if it has a number, the size of a page, and a connection
/// that may write.
pub proof fn law_whole_pages_are_written(page_no: u32, page_size: u32, len: nat, writable: bool)
    ensures
        write_refusal(page_no, page_size, len, writable) is None <==> page_no > 0 && len
            == page_size && writable,
        page_no > 0 && len == page_size && !writable ==> write_refusal(
            page_no,
            page_size,
            len,
            writable,
        ) == Some("connection is read-only; cannot write pages"@),
{
}

/// The next page begins where a page ends.
pub proof fn law_pages_follow_each_other(page_no: u32, page_size: u32)
    requires
        0 < page_no < u32::MAX,
    ensures
        page_offset((page_no + 1) as u32, page_size) == page_offset(page_no, page_size) + page_size,
{
    assert((page_no + 1 - 1) * page_size == (page_no - 1) * page_size + page_size)
        by (nonlinear_arith);
}

/// The number of the last query of a pragma, counted from 0, of which that with this
/// number and all further ones give the result code `rc`.
pub open spec fn last_pragma_query(rc: i32, attempt: u64) -> u64
    decreases MAX_PRAGMA_RETRIES - attempt,
{
    if pragma_is_retried(rc, attempt) && attempt < MAX_PRAGMA_RETRIES {
        last_pragma_query(rc, (attempt + 1) as u64)
    } else {
        attempt
    }
}

proof fn lemma_last_pragma_query(rc: i32, attempt: u64)
    requires
        attempt <= MAX_PRAGMA_RETRIES,
        rc == 5 || rc == 6 || rc == 101,
    ensures
        last_pragma_query(rc, attempt) == 12,
    decreases MAX_PRAGMA_RETRIES - attempt,
{
    if attempt < MAX_PRAGMA_RETRIES {
        lemma_last_pragma_query(rc, (attempt + 1) as u64);
    }
}

/// A pragma is queried again while the database is busy or locked or gives no row, 12
/// times at most; any other result stands at once.
pub proof fn law_pragma_is_queried_again_while_locked(rc: i32, attempt: u64)
    ensures
        rc == 5 || rc == 6 || rc == 101 ==> last_pragma_query(rc, 0) == 12,
        rc != 5 && rc != 6 && rc != 101 ==> last_pragma_query(rc, 0) == 0,
        !pragma_is_retried(100, attempt),
{
    if rc == 5 || rc == 6 || rc == 101 {
        lemma_last_pragma_query(rc, 0);
    }
}

/// The wait between two queries grows by a millisecond each time, from one to ten.
pub proof fn law_pragma_wait_grows(attempt: u64)
    requires
        attempt < MAX_PRAGMA_RETRIES,
    ensures
        pragma_delay_ms(0) == 1,
        pragma_delay_ms(attempt) <= 10,
        pragma_delay_ms(attempt) < 10 ==> pragma_delay_ms((attempt + 1) as u64) == pragma_delay_ms(
            attempt,
        ) + 1,
        pragma_delay_ms(attempt) == 10 ==> pragma_delay_ms((attempt + 1) as u64) == 10,
{
}

/// Success is one of three result codes: all is well, a row is ready, or there are no
/// more rows. A lock is none.
pub proof fn law_three_codes_are_success(rc: i32)
    ensures
        is_success(rc) <==> rc == 0 || rc == 100 || rc == 101,
        pragma_is_retried(rc, 0) ==> rc == 101 || !is_success(rc),
{
}

} // verus!
