//! Collecting the rows of a query, whole or in chunks.
use vstd::prelude::*;

use crate::db::SqlValue;
use crate::gateway::values;
use crate::gateway::values::ColumnInfo;
use crate::proto::{ColumnHeader, QueryChunk, QueryResponse, Row, Value};

verus! {

/// The values of each row.
pub open spec fn row_views(rows: Seq<Row>) -> Seq<Seq<Value>> {
    Seq::new(rows.len(), |i: int| rows[i].values@)
}

/// Whether a limit on the number of rows leaves room for more; 0 is no limit.
pub open spec fn wants_more(max_rows: u32, count: nat) -> bool {
    max_rows == 0 || count < max_rows
}

// ---------------------------------------------------------------------------
// Whole results
// ---------------------------------------------------------------------------

/// The rows of a query so far.
#[derive(Debug)]
pub struct RowCollector {
    max_rows: u32,
    rows: Vec<Row>,
}

impl RowCollector {
    /// The limit on the number of rows; 0 is no limit.
    pub closed spec fn limit(self) -> u32 {
        self.max_rows
    }

    /// The rows so far.
    pub closed spec fn collected(self) -> Seq<Seq<Value>> {
        row_views(self.rows@)
    }

    /// No rows yet.
    pub fn new(max_rows: u32) -> (r: RowCollector)
        ensures
            r.limit() == max_rows,
            r.collected() == Seq::<Seq<Value>>::empty(),
    {
        let r: RowCollector = RowCollector { max_rows, rows: Vec::new() };
        assert(r.collected() == Seq::<Seq<Value>>::empty());
        r
    }

    /// Take in a row. The result says whether to step on.
    pub fn push(&mut self, row: Vec<SqlValue>) -> (more: bool)
        ensures
            final(self).limit() == old(self).limit(),
            final(self).collected() == old(self).collected().push(values::wire_row(row@)),
            more == wants_more(final(self).limit(), final(self).collected().len()),
    {
        let ghost before = self.rows@;
        let r: Row = values::row_of(row);
        self.rows.push(r);
        assert(row_views(self.rows@) == row_views(before).push(r.values@));
        self.max_rows == 0 || (self.rows.len() as u64) < self.max_rows as u64
    }

    /// The response to a query, when all rows are in.
    pub fn into_response(
        self,
        columns: &Vec<ColumnInfo>,
        execution_time_us: u64,
        generation: u64,
        is_replica_read: bool,
    ) -> (r: QueryResponse)
        ensures
            values::headers_of(r.columns@, columns@),
            row_views(r.rows@) == self.collected(),
            r.total_rows == self.collected().len(),
            r.execution_time_us == execution_time_us,
            r.generation == generation,
            r.is_replica_read == is_replica_read,
    {
        let rows: Vec<Row> = self.rows;
        let total_rows: u64 = rows.len() as u64;
        QueryResponse {
            columns: values::column_headers(columns),
            rows,
            total_rows,
            execution_time_us,
            generation,
            is_replica_read,
        }
    }
}

/// The rows that a collector holds after it was given rows until it wanted no
/// more.
pub open spec fn collect(held: Seq<Seq<Value>>, rest: Seq<Seq<Value>>, max_rows: u32) -> Seq<
    Seq<Value>,
>
    decreases rest.len(),
{
    if rest.len() == 0 {
        held
    } else {
        let now = held.push(rest[0]);
        if wants_more(max_rows, now.len()) {
            collect(now, rest.skip(1), max_rows)
        } else {
            now
        }
    }
}

proof fn lemma_collect(held: Seq<Seq<Value>>, rest: Seq<Seq<Value>>, max_rows: u32)
    requires
        max_rows == 0 || held.len() < max_rows,
    ensures
        collect(held, rest, max_rows) == if max_rows == 0 || held.len() + rest.len() <= max_rows {
            held + rest
        } else {
            held + rest.take(max_rows - held.len())
        },
    decreases rest.len(),
{
    if rest.len() == 0 {
        assert(held + rest == held);
    } else {
        let now = held.push(rest[0]);
        if wants_more(max_rows, now.len()) {
            lemma_collect(now, rest.skip(1), max_rows);
            assert(now + rest.skip(1) == held + rest);
            if max_rows > 0 && held.len() + rest.len() > max_rows {
                assert(now + rest.skip(1).take(max_rows - now.len()) == held + rest.take(
                    max_rows - held.len(),
                ));
            }
        } else {
            assert(rest.take(1) == seq![rest[0]]);
            assert(held + rest.take(1) == now);
            if rest.len() == 1 {
                assert(held + rest == now);
            }
        }
    }
}

/// A query gives all rows where there is no limit, and else the first rows up to
/// the limit.
pub proof fn law_query_keeps_first_rows(rows: Seq<Seq<Value>>, max_rows: u32)
    ensures
        collect(Seq::empty(), rows, max_rows) == if max_rows == 0 || rows.len() <= max_rows {
            rows
        } else {
            rows.take(max_rows as int)
        },
{
    lemma_collect(Seq::empty(), rows, max_rows);
    assert(Seq::<Seq<Value>>::empty() + rows == rows);
    if max_rows > 0 && rows.len() > max_rows {
        assert(Seq::<Seq<Value>>::empty() + rows.take(max_rows as int) == rows.take(
            max_rows as int,
        ));
    }
}

// ---------------------------------------------------------------------------
// Chunks
// ---------------------------------------------------------------------------

/// A chunk, as plain data.
#[verifier::ext_equal]
pub struct ChunkView {
    pub columns: Seq<ColumnHeader>,
    pub rows: Seq<Seq<Value>>,
    pub is_last: bool,
    pub total_rows: nat,
    pub time: u64,
}

/// What a chunk holds.
pub open spec fn chunk_view(c: QueryChunk) -> ChunkView {
    ChunkView {
        columns: c.columns@,
        rows: row_views(c.rows@),
        is_last: c.is_last,
        total_rows: c.total_rows as nat,
        time: c.execution_time_us,
    }
}

/// What these chunks hold.
pub open spec fn chunk_views(v: Seq<QueryChunk>) -> Seq<ChunkView> {
    Seq::new(v.len(), |i: int| chunk_view(v[i]))
}

/// The chunks of a query so far.
#[verifier::ext_equal]
pub struct ChunkState {
    /// The columns, until a chunk has carried them.
    pub columns: Seq<ColumnHeader>,
    /// The complete chunks.
    pub chunks: Seq<ChunkView>,
    /// The rows of the next chunk.
    pub pending: Seq<Seq<Value>>,
    /// The number of rows.
    pub total: nat,
}

/// No rows yet.
pub open spec fn no_chunks(columns: Seq<ColumnHeader>) -> ChunkState {
    ChunkState { columns, chunks: Seq::empty(), pending: Seq::empty(), total: 0 }
}

/// The chunks after one more row: it completes a chunk when it fills it.
pub open spec fn chunk_step(
    st: ChunkState,
    chunk_size: usize,
    row: Seq<Value>,
    time: u64,
) -> ChunkState {
    let pending = st.pending.push(row);
    if pending.len() >= chunk_size {
        ChunkState {
            columns: Seq::empty(),
            chunks: st.chunks.push(
                ChunkView {
                    columns: st.columns,
                    rows: pending,
                    is_last: false,
                    total_rows: st.total + 1,
                    time,
                },
            ),
            pending: Seq::empty(),
            total: st.total + 1,
        }
    } else {
        ChunkState { columns: st.columns, chunks: st.chunks, pending, total: st.total + 1 }
    }
}

/// All chunks, when no more rows come: the last one holds the rows that are left.
pub open spec fn all_chunks(st: ChunkState, time: u64) -> Seq<ChunkView> {
    st.chunks.push(
        ChunkView {
            columns: st.columns,
            rows: st.pending,
            is_last: true,
            total_rows: st.total,
            time,
        },
    )
}

/// The chunks of a query so far.
#[derive(Debug)]
pub struct ChunkCollector {
    columns: Vec<ColumnHeader>,
    chunk_size: usize,
    max_rows: u32,
    chunks: Vec<QueryChunk>,
    pending: Vec<Row>,
    total: u64,
}

impl ChunkCollector {
    /// The chunks and rows so far.
    pub closed spec fn state(self) -> ChunkState {
        ChunkState {
            columns: self.columns@,
            chunks: chunk_views(self.chunks@),
            pending: row_views(self.pending@),
            total: self.total as nat,
        }
    }

    /// The number of rows of a chunk.
    pub closed spec fn size(self) -> usize {
        self.chunk_size
    }

    /// The limit on the number of rows; 0 is no limit.
    pub closed spec fn limit(self) -> u32 {
        self.max_rows
    }

    /// No rows yet.
    pub fn new(columns: Vec<ColumnHeader>, chunk_size: usize, max_rows: u32) -> (r: ChunkCollector)
        ensures
            r.state() == no_chunks(columns@),
            r.size() == chunk_size,
            r.limit() == max_rows,
    {
        let r: ChunkCollector = ChunkCollector {
            columns,
            chunk_size,
            max_rows,
            chunks: Vec::new(),
            pending: Vec::new(),
            total: 0,
        };
        assert(r.state() =~= no_chunks(columns@));
        r
    }

    /// Take in a row. The result says whether to step on.
    pub fn push(&mut self, row: Vec<SqlValue>, time: u64) -> (more: bool)
        requires
            old(self).state().total < u64::MAX,
        ensures
            final(self).state() == chunk_step(
                old(self).state(),
                old(self).size(),
                values::wire_row(row@),
                time,
            ),
            final(self).size() == old(self).size(),
            final(self).limit() == old(self).limit(),
            more == wants_more(final(self).limit(), final(self).state().total),
    {
        let ghost before = self.pending@;
        let ghost chunks_before = self.chunks@;
        let r: Row = values::row_of(row);
        self.total = self.total + 1;
        self.pending.push(r);
        assert(row_views(self.pending@) == row_views(before).push(r.values@));
        if self.pending.len() >= self.chunk_size {
            let mut columns: Vec<ColumnHeader> = Vec::new();
            let mut rows: Vec<Row> = Vec::new();
            core::mem::swap(&mut columns, &mut self.columns);
            core::mem::swap(&mut rows, &mut self.pending);
            let chunk: QueryChunk = QueryChunk {
                columns,
                rows,
                is_last: false,
                total_rows: self.total,
                execution_time_us: time,
            };
            self.chunks.push(chunk);
            assert(chunk_views(self.chunks@) == chunk_views(chunks_before).push(
                chunk_view(chunk),
            ));
        }
        assert(self.state() =~= chunk_step(
            old(self).state(),
            old(self).size(),
            values::wire_row(row@),
            time,
        ));
        self.max_rows == 0 || self.total < self.max_rows as u64
    }

    /// The chunks, when no more rows come.
    pub fn finish(self, time: u64) -> (r: Vec<QueryChunk>)
        ensures
            chunk_views(r@) == all_chunks(self.state(), time),
    {
        let mut chunks: Vec<QueryChunk> = self.chunks;
        let ghost before = chunks@;
        let last: QueryChunk = QueryChunk {
            columns: self.columns,
            rows: self.pending,
            is_last: true,
            total_rows: self.total,
            execution_time_us: time,
        };
        chunks.push(last);
        assert(chunk_views(chunks@) == chunk_views(before).push(chunk_view(last)));
        chunks
    }
}

/// The chunks after these rows, each taken in at its time.
pub open spec fn chunked(
    columns: Seq<ColumnHeader>,
    chunk_size: usize,
    rows: Seq<Seq<Value>>,
    times: Seq<u64>,
) -> ChunkState
    decreases rows.len(),
{
    if rows.len() == 0 {
        no_chunks(columns)
    } else {
        chunk_step(
            chunked(columns, chunk_size, rows.drop_last(), times),
            chunk_size,
            rows.last(),
            times[rows.len() - 1],
        )
    }
}

/// The rows of these chunks, one after the other.
pub open spec fn rows_of(chunks: Seq<ChunkView>) -> Seq<Seq<Value>>
    decreases chunks.len(),
{
    if chunks.len() == 0 {
        Seq::empty()
    } else {
        rows_of(chunks.drop_last()) + chunks.last().rows
    }
}

/// The number of rows that complete a chunk.
pub open spec fn full_size(chunk_size: usize) -> nat {
    if chunk_size == 0 {
        1
    } else {
        chunk_size as nat
    }
}

/// Complete chunks: full, not marked as the last one, and only the first with
/// the columns.
pub open spec fn complete(
    chunks: Seq<ChunkView>,
    columns: Seq<ColumnHeader>,
    chunk_size: usize,
) -> bool {
    forall|i: int|
        0 <= i < chunks.len() ==> {
            let c = #[trigger] chunks[i];
            &&& c.rows.len() == full_size(chunk_size)
            &&& !c.is_last
            &&& c.columns == if i == 0 {
                columns
            } else {
                Seq::empty()
            }
        }
}

/// Each chunk tells the number of rows up to its own last one.
pub open spec fn totals_run(chunks: Seq<ChunkView>) -> bool {
    forall|i: int|
        0 <= i < chunks.len() ==> (#[trigger] chunks[i]).total_rows == rows_of(
            chunks.take(i + 1),
        ).len()
}

proof fn lemma_totals_push(chunks: Seq<ChunkView>, c: ChunkView)
    requires
        totals_run(chunks),
        c.total_rows == rows_of(chunks).len() + c.rows.len(),
    ensures
        totals_run(chunks.push(c)),
{
    let longer = chunks.push(c);
    assert forall|i: int| 0 <= i < longer.len() implies (#[trigger] longer[i]).total_rows
        == rows_of(longer.take(i + 1)).len() by {
        if i < chunks.len() {
            assert(longer[i] == chunks[i]);
            assert(longer.take(i + 1) == chunks.take(i + 1));
        } else {
            assert(longer.take(i + 1) == longer);
            assert(longer.drop_last() == chunks);
        }
    }
}

proof fn lemma_chunked(
    columns: Seq<ColumnHeader>,
    chunk_size: usize,
    rows: Seq<Seq<Value>>,
    times: Seq<u64>,
)
    ensures
        ({
            let st = chunked(columns, chunk_size, rows, times);
            &&& rows_of(st.chunks) + st.pending == rows
            &&& st.total == rows.len()
            &&& st.pending.len() < full_size(chunk_size)
            &&& complete(st.chunks, columns, chunk_size)
            &&& totals_run(st.chunks)
            &&& st.columns == if st.chunks.len() == 0 {
                columns
            } else {
                Seq::empty()
            }
        }),
    decreases rows.len(),
{
    let st = chunked(columns, chunk_size, rows, times);
    if rows.len() == 0 {
        assert(rows_of(st.chunks) + st.pending == rows);
    } else {
        let before = chunked(columns, chunk_size, rows.drop_last(), times);
        lemma_chunked(columns, chunk_size, rows.drop_last(), times);
        let pending = before.pending.push(rows.last());
        assert(rows == rows.drop_last().push(rows.last()));
        assert(rows_of(before.chunks) + pending == (rows_of(before.chunks)
            + before.pending).push(rows.last()));
        if pending.len() >= chunk_size {
            assert(st.chunks.drop_last() == before.chunks);
            lemma_totals_push(before.chunks, st.chunks.last());
            assert(before.chunks.push(st.chunks.last()) == st.chunks);
            assert(rows_of(st.chunks) == rows);
            assert(rows_of(st.chunks) + st.pending == rows);
        }
    }
}

/// The chunks of a query hold its rows, all of them, each once and in order; only
/// the last one is marked so, every other one is full, the columns come with the
/// first one alone, and each tells the number of rows up to its own last one.
pub proof fn law_chunks_hold_all_rows(
    columns: Seq<ColumnHeader>,
    chunk_size: usize,
    rows: Seq<Seq<Value>>,
    times: Seq<u64>,
    time: u64,
)
    ensures
        ({
            let chunks = all_chunks(chunked(columns, chunk_size, rows, times), time);
            &&& chunks.len() > 0
            &&& rows_of(chunks) == rows
            &&& complete(chunks.drop_last(), columns, chunk_size)
            &&& chunks.last().is_last
            &&& totals_run(chunks)
            &&& chunks.last().total_rows == rows.len()
            &&& chunks.last().rows.len() < full_size(chunk_size)
            &&& chunks[0].columns == columns
            &&& chunks.len() > 1 ==> chunks.last().columns == Seq::<ColumnHeader>::empty()
        }),
{
    let st = chunked(columns, chunk_size, rows, times);
    lemma_chunked(columns, chunk_size, rows, times);
    let chunks = all_chunks(st, time);
    assert(chunks.drop_last() == st.chunks);
    lemma_totals_push(st.chunks, chunks.last());
    assert(st.chunks.push(chunks.last()) == chunks);
}

/// Rows are wanted without end where there is no limit, and else up to the limit.
pub proof fn law_rows_are_wanted_up_to_the_limit(max_rows: u32, count: nat)
    ensures
        wants_more(0, count),
        max_rows > 0 ==> (wants_more(max_rows, count) <==> count < max_rows),
        full_size(0) == 1,
        max_rows > 0 ==> full_size(max_rows as usize) == max_rows,
{
}

/// The rows of a result are those of its messages, in order.
pub proof fn law_rows_are_those_of_the_messages(rows: Seq<Row>, i: int)
    requires
        0 <= i < rows.len(),
    ensures
        row_views(rows).len() == rows.len(),
        row_views(rows)[i] == rows[i].values@,
{
}

} // verus!
