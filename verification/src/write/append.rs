//! Appending rows to a dataset.
use crate::numbers;
use vstd::prelude::*;

verus! {

/// How rows are written: into a new dataset, behind the rows of an existing one, or in their place.
#[derive(Clone, Copy, PartialEq, Eq, Structural, Debug)]
pub enum WriteMode {
    Create,
    Append,
    Overwrite,
}

/// The mode of the given name.
pub open spec fn mode_of(mode: Seq<char>) -> Option<WriteMode> {
    if mode == "create"@ {
        Some(WriteMode::Create)
    } else if mode == "append"@ {
        Some(WriteMode::Append)
    } else if mode == "overwrite"@ {
        Some(WriteMode::Overwrite)
    } else {
        None
    }
}

/// How a chunk is written, and whether the dataset must be found to exist first.
#[derive(Clone, Copy, PartialEq, Eq, Structural, Debug)]
pub struct ChunkWrite {
    pub mode: WriteMode,
    pub check_exists: bool,
}

/// A run that writes one chunk after the other.
#[derive(Clone, Copy, PartialEq, Eq, Structural, Debug)]
pub struct AppendRun {
    pub mode: WriteMode,
    pub first: bool,
}

/// A run or a message as a sequence of characters.
pub open spec fn append_outcome(r: Result<AppendRun, String>) -> Result<AppendRun, Seq<char>> {
    match r {
        Ok(run) => Ok(run),
        Err(message) => Err(message@),
    }
}

/// Starts writing rows in the mode of the given name; fails where there is no such mode. The chunks
/// of the source follow, and at its end `AppendRun::finish`.
pub fn lance_append_impl(mode: &str) -> (r: Result<AppendRun, String>)
    ensures
        append_outcome(r) == (match mode_of(mode@) {
            Some(found) => Ok::<AppendRun, Seq<char>>(AppendRun { mode: found, first: true }),
            None => Err(
                "invalid mode '"@ + mode@ + "': must be 'create', 'append', or 'overwrite'"@,
            ),
        }),
{
    let found: WriteMode = if mode.eq("create") {
        WriteMode::Create
    } else if mode.eq("append") {
        WriteMode::Append
    } else if mode.eq("overwrite") {
        WriteMode::Overwrite
    } else {
        let mut message = "invalid mode '".to_owned();
        message.append(mode);
        message.append("': must be 'create', 'append', or 'overwrite'");
        return Err(message);
    };
    Ok(AppendRun { mode: found, first: true })
}

impl AppendRun {
    /// How a chunk of `batches` batches is written; one without batches is not.
    pub open spec fn write_of(self, batches: nat) -> Option<ChunkWrite> {
        if batches == 0 {
            None
        } else if self.first {
            Some(
                ChunkWrite { mode: self.mode, check_exists: self.mode == WriteMode::Append },
            )
        } else {
            Some(ChunkWrite { mode: WriteMode::Append, check_exists: false })
        }
    }

    /// The run behind a chunk of `batches` batches.
    pub open spec fn after(self, batches: nat) -> AppendRun {
        AppendRun { first: self.first && batches == 0, ..self }
    }

    /// How a chunk of `batches` batches is written: the first in the mode that was asked for, every
    /// other behind it.
    pub fn chunk(&self, batches: usize) -> (write: Option<ChunkWrite>)
        ensures
            write == self.write_of(batches as nat),
    {
        if batches == 0 {
            None
        } else if self.first {
            Some(ChunkWrite { mode: self.mode, check_exists: self.mode == WriteMode::Append })
        } else {
            Some(ChunkWrite { mode: WriteMode::Append, check_exists: false })
        }
    }

    /// How a write without rows is made at the end of the source: in the mode that was asked for,
    /// where no chunk was written.
    pub open spec fn last_write(self) -> Option<ChunkWrite> {
        if self.first {
            Some(
                ChunkWrite { mode: self.mode, check_exists: self.mode == WriteMode::Append },
            )
        } else {
            None
        }
    }

    /// What is left to do at the end of the source: where no chunk was written, a write without
    /// rows in the mode that was asked for, so that a source without rows creates a dataset, finds
    /// one to append to, or replaces all rows of one, as any other does.
    pub fn finish(&self) -> (write: Option<ChunkWrite>)
        ensures
            write == self.last_write(),
    {
        if self.first {
            Some(ChunkWrite { mode: self.mode, check_exists: self.mode == WriteMode::Append })
        } else {
            None
        }
    }

    /// Takes that a chunk of `batches` batches was written.
    pub fn written(&mut self, batches: usize)
        ensures
            *final(self) == old(self).after(batches as nat),
    {
        if batches > 0 {
            self.first = false;
        }
    }
}

/// The number of rows that were written.
pub fn rows_written(total_rows: u64) -> (n: i64)
    ensures
        n == numbers::wrapped_i64(total_rows),
{
    numbers::wrap_i64(total_rows)
}

/// The run behind chunks with the given numbers of batches.
pub open spec fn appended(start: AppendRun, chunks: Seq<nat>) -> AppendRun
    decreases chunks.len(),
{
    if chunks.len() == 0 {
        start
    } else {
        appended(start, chunks.drop_last()).after(chunks.last())
    }
}

/// The first chunk that has batches is written in the mode that was asked for, every later one
/// behind it; only the first is checked for an existing dataset, and only in order to append.
pub proof fn only_the_first_chunk_has_the_mode(start: AppendRun, chunks: Seq<nat>, batches: nat)
    requires
        start.first,
        batches > 0,
    ensures
        (forall|i: int| 0 <= i < chunks.len() ==> #[trigger] chunks[i] == 0) ==> appended(
            start,
            chunks,
        ).write_of(batches) == Some(
            ChunkWrite { mode: start.mode, check_exists: start.mode == WriteMode::Append },
        ),
        (exists|i: int| 0 <= i < chunks.len() && #[trigger] chunks[i] > 0) ==> appended(
            start,
            chunks,
        ).write_of(batches) == Some(ChunkWrite { mode: WriteMode::Append, check_exists: false }),
{
    first_until_written(start, chunks);
}

proof fn first_until_written(start: AppendRun, chunks: Seq<nat>)
    requires
        start.first,
    ensures
        appended(start, chunks).mode == start.mode,
        appended(start, chunks).first <==> forall|i: int|
            0 <= i < chunks.len() ==> #[trigger] chunks[i] == 0,
    decreases chunks.len(),
{
    if chunks.len() > 0 {
        let front = chunks.drop_last();
        first_until_written(start, front);
        assert(forall|i: int| 0 <= i < front.len() ==> #[trigger] front[i] == chunks[i]);
        if appended(start, chunks).first {
            assert forall|i: int| 0 <= i < chunks.len() implies #[trigger] chunks[i] == 0 by {
                if i < front.len() {
                    assert(front[i] == chunks[i]);
                }
            }
        } else if forall|i: int| 0 <= i < chunks.len() ==> #[trigger] chunks[i] == 0 {
            assert(chunks[chunks.len() - 1] == 0);
        }
    }
}

/// The writes of chunks with the given numbers of batches.
pub open spec fn chunk_writes(start: AppendRun, chunks: Seq<nat>) -> Seq<ChunkWrite>
    decreases chunks.len(),
{
    if chunks.len() == 0 {
        seq![]
    } else {
        let front = chunk_writes(start, chunks.drop_last());
        match appended(start, chunks.drop_last()).write_of(chunks.last()) {
            Some(write) => front.push(write),
            None => front,
        }
    }
}

/// All writes of a run: those of the chunks, and the one at the end of the source, if any.
pub open spec fn all_writes(start: AppendRun, chunks: Seq<nat>) -> Seq<ChunkWrite> {
    match appended(start, chunks).last_write() {
        Some(write) => chunk_writes(start, chunks).push(write),
        None => chunk_writes(start, chunks),
    }
}

/// Every run to the end of its source writes, and in the mode that was asked for: the first write
/// has that mode, and checks for an existing dataset in order to append; every other one appends.
/// A source without rows is no exception.
pub proof fn mode_is_always_kept(start: AppendRun, chunks: Seq<nat>)
    requires
        start.first,
    ensures
        all_writes(start, chunks).len() > 0,
        all_writes(start, chunks)[0] == (ChunkWrite {
            mode: start.mode,
            check_exists: start.mode == WriteMode::Append,
        }),
        forall|i: int|
            0 < i < all_writes(start, chunks).len() ==> (#[trigger] all_writes(start, chunks)[i])
                == (ChunkWrite { mode: WriteMode::Append, check_exists: false }),
{
    writes_in_order(start, chunks);
}

proof fn writes_in_order(start: AppendRun, chunks: Seq<nat>)
    requires
        start.first,
    ensures
        appended(start, chunks).mode == start.mode,
        appended(start, chunks).first <==> chunk_writes(start, chunks).len() == 0,
        chunk_writes(start, chunks).len() > 0 ==> chunk_writes(start, chunks)[0] == (ChunkWrite {
            mode: start.mode,
            check_exists: start.mode == WriteMode::Append,
        }),
        forall|i: int|
            0 < i < chunk_writes(start, chunks).len() ==> (#[trigger] chunk_writes(
                start,
                chunks,
            )[i]) == (ChunkWrite { mode: WriteMode::Append, check_exists: false }),
    decreases chunks.len(),
{
    if chunks.len() > 0 {
        let front = chunks.drop_last();
        writes_in_order(start, front);
        let before = chunk_writes(start, front);
        let now = chunk_writes(start, chunks);
        assert forall|i: int| 0 < i < now.len() implies (#[trigger] now[i]) == (ChunkWrite {
            mode: WriteMode::Append,
            check_exists: false,
        }) by {
            if i < before.len() {
                assert(now[i] == before[i]);
            }
        }
    }
}

/// Each of the three names stands for the mode of that name, and no other name for any.
pub proof fn modes_have_their_names(mode: Seq<char>)
    ensures
        mode_of(mode) == Some(WriteMode::Create) <==> mode == "create"@,
        mode_of(mode) == Some(WriteMode::Append) <==> mode == "append"@,
        mode_of(mode) == Some(WriteMode::Overwrite) <==> mode == "overwrite"@,
{
    reveal_strlit("create");
    reveal_strlit("append");
    reveal_strlit("overwrite");
    assert("create"@[0] == 'c' && "append"@[0] == 'a');
    assert("overwrite"@.len() == 9 && "create"@.len() == 6 && "append"@.len() == 6);
}

/// There is one write for every chunk that has batches, and one more only where there was none.
pub proof fn one_write_per_chunk(start: AppendRun, chunks: Seq<nat>)
    requires
        start.first,
    ensures
        chunk_writes(start, chunks).len() == chunks.filter(|batches: nat| batches > 0).len(),
        all_writes(start, chunks).len() == (if chunks.filter(|batches: nat| batches > 0).len() == 0 {
            1
        } else {
            chunks.filter(|batches: nat| batches > 0).len()
        }),
    decreases chunks.len(),
{
    writes_in_order(start, chunks);
    reveal(Seq::filter);
    if chunks.len() > 0 {
        one_write_per_chunk(start, chunks.drop_last());
    }
}

} // verus!
