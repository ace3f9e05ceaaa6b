//! The result of a query in chunks.
use crate::text;
use crate::write::pg_to_arrow;
use crate::write::pg_to_arrow::{extract_spi_columns, DescribedColumn, SpiColumnInfo};
use crate::write::row_batches;
use crate::write::row_batches::RowBatcher;
use vstd::prelude::*;

verus! {

/// The result of a query in chunks: how many rows a batch has, how many rows are fetched at a time,
/// how many came, and the columns, once they are known.
pub struct SpiChunks {
    batch_size: usize,
    fetch_count: i64,
    total_rows: u64,
    columns: Option<Vec<SpiColumnInfo>>,
}

/// The result of a query in chunks.
pub ghost struct Chunks {
    pub batch_size: nat,
    pub fetch_count: int,
    pub total_rows: nat,
    pub columns: Option<Seq<pg_to_arrow::ColumnInfo>>,
}

impl DeepView for SpiChunks {
    type V = Chunks;

    closed spec fn deep_view(&self) -> Chunks {
        Chunks {
            batch_size: self.batch_size as nat,
            fetch_count: self.fetch_count as int,
            total_rows: self.total_rows as nat,
            columns: self.columns.deep_view(),
        }
    }
}

/// What a fetched chunk calls for: nothing more, since it is empty; the columns, since they are
/// not known yet; or its rows.
#[derive(Clone, Copy, PartialEq, Eq, Structural, Debug)]
pub enum ChunkStep {
    Done,
    Describe,
    Convert,
}

/// The start of fetching a query's result.
pub open spec fn chunks_start(batch_size: nat, chunk_rows: nat) -> Chunks {
    Chunks {
        batch_size: if batch_size == 0 {
            1
        } else {
            batch_size
        },
        fetch_count: if chunk_rows == 0 || chunk_rows > i64::MAX {
            i64::MAX as int
        } else {
            chunk_rows as int
        },
        total_rows: 0,
        columns: None,
    }
}

impl Chunks {
    /// Behind a chunk of `rows` rows.
    pub open spec fn after_chunk(self, rows: nat) -> Chunks {
        Chunks { total_rows: self.total_rows + rows, ..self }
    }
}

/// The message of anything that failed while the result was fetched.
pub open spec fn failure(message: Seq<char>) -> Seq<char> {
    "SPI connect failed: "@ + message
}

/// The message of anything that failed while the result was fetched.
pub fn spi_failure(message: &str) -> (s: String)
    ensures
        s@ == failure(message@),
{
    let mut s = "SPI connect failed: ".to_owned();
    s.append(message);
    s
}

/// What a fetched chunk of `rows` rows calls for.
pub open spec fn step_of(fetched: Result<nat, Seq<char>>, known: bool) -> Result<
    ChunkStep,
    Seq<char>,
> {
    match fetched {
        Err(e) => Err(failure("SPI cursor fetch failed: "@ + e)),
        Ok(rows) => if rows == 0 {
            Ok(ChunkStep::Done)
        } else if known {
            Ok(ChunkStep::Convert)
        } else {
            Ok(ChunkStep::Describe)
        },
    }
}

/// A count or a message as a sequence of characters.
pub open spec fn count_outcome(r: Result<usize, String>) -> Result<nat, Seq<char>> {
    match r {
        Ok(n) => Ok(n as nat),
        Err(message) => Err(message@),
    }
}

/// A step or a message as a sequence of characters.
pub open spec fn step_outcome(r: Result<ChunkStep, String>) -> Result<ChunkStep, Seq<char>> {
    match r {
        Ok(step) => Ok(step),
        Err(message) => Err(message@),
    }
}

/// Starts fetching a query's result in chunks of `chunk_rows` rows, or as a whole where that is 0,
/// to be made into batches of `batch_size` rows.
pub fn for_each_spi_chunk(batch_size: usize, chunk_rows: usize) -> (chunks: SpiChunks)
    ensures
        chunks.deep_view() == chunks_start(batch_size as nat, chunk_rows as nat),
{
    let fetch_count: i64 = if chunk_rows == 0 || chunk_rows as u64 > i64::MAX as u64 {
        i64::MAX
    } else {
        chunk_rows as i64
    };
    let batch_size: usize = if batch_size == 0 {
        1
    } else {
        batch_size
    };
    SpiChunks { batch_size, fetch_count, total_rows: 0, columns: None }
}

impl SpiChunks {
    /// How many rows to fetch at a time.
    pub fn fetch_count(&self) -> (n: i64)
        ensures
            n == self.deep_view().fetch_count,
    {
        self.fetch_count
    }

    /// What a fetched chunk calls for, given its number of rows.
    pub fn fetched(&self, rows: &Result<usize, String>) -> (r: Result<ChunkStep, String>)
        ensures
            step_outcome(r) == step_of(
                count_outcome(*rows),
                self.deep_view().columns is Some,
            ),
    {
        match rows {
            Err(e) => {
                let mut message = "SPI cursor fetch failed: ".to_owned();
                message.append(e.as_str());
                Err(spi_failure(message.as_str()))
            },
            Ok(rows) => if *rows == 0 {
                Ok(ChunkStep::Done)
            } else if self.columns.is_some() {
                Ok(ChunkStep::Convert)
            } else {
                Ok(ChunkStep::Describe)
            },
        }
    }

    /// Takes what is known of the columns.
    pub fn described(&mut self, columns: &Result<Vec<DescribedColumn>, String>) -> (r: Result<
        (),
        String,
    >)
        ensures
            match pg_to_arrow::spi_columns(text::outcome(*columns)) {
                Ok(infos) => r is Ok && final(self).deep_view() == (Chunks {
                    columns: Some(infos),
                    ..old(self).deep_view()
                }),
                Err(message) => r is Err && r->Err_0@ == failure(message) && final(self).deep_view()
                    == old(self).deep_view(),
            },
    {
        match extract_spi_columns(columns) {
            Ok(infos) => {
                self.columns = Some(infos);
                Ok(())
            },
            Err(message) => Err(spi_failure(message.as_str())),
        }
    }

    /// Starts collecting the rows of a chunk of `rows` rows into batches.
    pub fn convert(&self, shown: Vec<String>, rows: usize, max_buffer_bytes: usize) -> (r: Result<
        RowBatcher,
        String,
    >)
        requires
            self.deep_view().columns is Some,
            shown@.len() == self.deep_view().columns->Some_0.len(),
        ensures
            text::outcome(r) == (match row_batches::batcher_start(
                row_batches::types_of(self.deep_view().columns->Some_0),
                shown.deep_view(),
                self.deep_view().batch_size,
                rows as nat,
                max_buffer_bytes as nat,
            ) {
                Ok(batcher) => Ok::<row_batches::Batcher, Seq<char>>(batcher),
                Err(message) => Err(failure(message)),
            }),
            r matches Ok(batcher) ==> batcher.deep_view().valid(),
    {
        match &self.columns {
            Some(columns) => {
                assert(columns.deep_view().len() == columns@.len());
                let started = RowBatcher::new(
                    columns.as_slice(),
                    shown,
                    self.batch_size,
                    rows,
                    max_buffer_bytes,
                );
                match started {
                    Ok(batcher) => Ok(batcher),
                    Err(message) => Err(spi_failure(message.as_str())),
                }
            },
            None => Err(String::new()),
        }
    }

    /// The columns, once they are known.
    pub fn columns(&self) -> (columns: Option<&Vec<SpiColumnInfo>>)
        ensures
            columns.deep_view() == self.deep_view().columns,
    {
        match &self.columns {
            Some(columns) => Some(columns),
            None => None,
        }
    }

    /// Takes what came of a chunk of `rows` rows.
    pub fn handled(&mut self, rows: u64, outcome: Result<(), String>) -> (r: Result<(), String>)
        requires
            old(self).deep_view().total_rows + rows <= u64::MAX,
        ensures
            final(self).deep_view() == old(self).deep_view().after_chunk(rows as nat),
            r is Ok <==> outcome is Ok,
            r matches Err(message) ==> message@ == failure(outcome->Err_0@),
    {
        self.total_rows = self.total_rows + rows;
        match outcome {
            Ok(_) => Ok(()),
            Err(message) => Err(spi_failure(message.as_str())),
        }
    }

    /// How many rows came.
    pub fn total_rows(&self) -> (n: u64)
        ensures
            n == self.deep_view().total_rows,
    {
        self.total_rows
    }
}

/// The state behind chunks with the given numbers of rows.
pub open spec fn fetched_chunks(start: Chunks, rows: Seq<nat>) -> Chunks
    decreases rows.len(),
{
    if rows.len() == 0 {
        start
    } else {
        fetched_chunks(start, rows.drop_last()).after_chunk(rows.last())
    }
}

/// The sum of numbers of rows.
pub open spec fn row_sum(rows: Seq<nat>) -> nat
    decreases rows.len(),
{
    if rows.len() == 0 {
        0
    } else {
        row_sum(rows.drop_last()) + rows.last()
    }
}

/// All rows of all chunks are counted, however the result is cut into chunks.
pub proof fn every_row_is_counted(batch_size: nat, chunk_rows: nat, rows: Seq<nat>)
    ensures
        fetched_chunks(chunks_start(batch_size, chunk_rows), rows).total_rows == row_sum(rows),
    decreases rows.len(),
{
    if rows.len() > 0 {
        every_row_is_counted(batch_size, chunk_rows, rows.drop_last());
    }
}

/// A result is fetched by as many rows as was asked for, as a whole where that is 0, and a batch has
/// at least one row.
pub proof fn chunks_are_as_large_as_asked(batch_size: nat, chunk_rows: nat)
    ensures
        ({
            let chunks = chunks_start(batch_size, chunk_rows);
            &&& 0 < chunk_rows <= i64::MAX ==> chunks.fetch_count == chunk_rows
            &&& chunk_rows == 0 || chunk_rows > i64::MAX ==> chunks.fetch_count == i64::MAX
            &&& batch_size > 0 ==> chunks.batch_size == batch_size
            &&& batch_size == 0 ==> chunks.batch_size == 1
            &&& chunks.columns is None
        }),
{
}

/// An empty chunk is the end; the columns are described once, at the first chunk that has rows, and
/// every chunk that has rows is converted.
pub proof fn every_chunk_with_rows_is_converted(rows: nat, e: Seq<char>, known: bool)
    ensures
        step_of(Ok(rows), known) == Ok::<ChunkStep, Seq<char>>(ChunkStep::Done) <==> rows == 0,
        rows > 0 && known ==> step_of(Ok(rows), known) == Ok::<ChunkStep, Seq<char>>(
            ChunkStep::Convert,
        ),
        rows > 0 && !known ==> step_of(Ok(rows), known) == Ok::<ChunkStep, Seq<char>>(
            ChunkStep::Describe,
        ),
        step_of(Err(e), known) == Err::<ChunkStep, Seq<char>>(
            "SPI connect failed: "@ + ("SPI cursor fetch failed: "@ + e),
        ),
        forall|message: Seq<char>| #[trigger]
            failure(message) == "SPI connect failed: "@ + message,
{
}

} // verus!
